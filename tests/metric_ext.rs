use sertus::metric_ext::{
    extract_labels, extract_metrics, unknown_metric_kinds, LabelExtractor, MetricExtractor,
    MetricStruct, MetricValue,
};

fn pair(k: &str, v: &str) -> (String, String) {
    (k.to_string(), v.to_string())
}

fn gauge_number(m: &MetricStruct) -> f64 {
    match &m.value {
        MetricValue::F64Text(t) => t.parse::<f64>().unwrap_or(0.0),
        MetricValue::U64(n) => *n as f64,
    }
}

#[test]
fn test_extract_label() {
    let s = r#"#label {k=v, x=y}"#.to_string();
    let labels = s.extract_label().unwrap();
    assert_eq!(labels, vec![pair("k", "v"), pair("x", "y")]);
}

#[test]
fn test_extract_metric() {
    let s = r#"
#metric xxx gauge {k=v, x=y} 1.0
#metric xxx counter {k=v} 1
            "#
    .to_string();
    let metrics = s.extract_metric().unwrap();
    assert_eq!(
        metrics,
        vec![
            MetricStruct {
                name: "xxx".to_string(),
                typ: "gauge".to_string(),
                labels: vec![pair("k", "v"), pair("x", "y")],
                value: MetricValue::F64Text("1.0".to_string()),
            },
            MetricStruct {
                name: "xxx".to_string(),
                typ: "counter".to_string(),
                labels: vec![pair("k", "v")],
                value: MetricValue::U64(1),
            }
        ]
    );
    assert_eq!(gauge_number(&metrics[0]), 1.0);
}

#[test]
fn no_directives_give_nothing() {
    let out = "all good\nstatus: ok\n# comment\nlabel {a=b}\n".to_string();
    assert!(out.extract_label().unwrap().is_empty());
    assert!(out.extract_metric().unwrap().is_empty());
    assert!(extract_labels("").is_empty());
    assert!(extract_metrics("").is_empty());
}

#[test]
fn gauge_and_counter_records() {
    let out = "start\n#metric foo gauge {a=1} 2.5\nmiddle\n#metric bar counter {b=2} 7\n";
    let metrics = extract_metrics(out);
    assert_eq!(metrics.len(), 2);
    assert_eq!(metrics[0].name, "foo");
    assert_eq!(metrics[0].typ, "gauge");
    assert_eq!(metrics[0].labels, vec![pair("a", "1")]);
    assert_eq!(gauge_number(&metrics[0]), 2.5);
    assert_eq!(metrics[1].name, "bar");
    assert_eq!(metrics[1].typ, "counter");
    assert_eq!(metrics[1].labels, vec![pair("b", "2")]);
    assert_eq!(metrics[1].value, MetricValue::U64(7));
}

#[test]
fn unparsable_counter_is_zero() {
    let metrics = extract_metrics("#metric c counter {a=1} seven\n#metric d counter {a=1} 99999999999999999999");
    assert_eq!(metrics.len(), 2);
    assert_eq!(metrics[0].value, MetricValue::U64(0));
    assert_eq!(metrics[1].value, MetricValue::U64(0));
    let metrics = extract_metrics("#metric c counter {a=1} +18446744073709551615");
    assert_eq!(metrics[0].value, MetricValue::U64(18446744073709551615));
}

#[test]
fn unparsable_gauge_is_zero_when_sent() {
    let metrics = extract_metrics("#metric g gauge {a=1} lots");
    assert_eq!(metrics.len(), 1);
    assert_eq!(metrics[0].value, MetricValue::F64Text("lots".to_string()));
    assert_eq!(gauge_number(&metrics[0]), 0.0);
}

#[test]
fn unknown_kind_is_dropped() {
    let metrics = extract_metrics("#metric h histogram {a=1} 3\n#metric c counter {a=1} 3");
    assert_eq!(metrics.len(), 1);
    assert_eq!(metrics[0].typ, "counter");
}

#[test]
fn malformed_lines_are_skipped() {
    let out = "#label {}\n#label {a=b\n#metric x gauge {} 1\n#metric x gauge {a=b}\n#metric gauge {a=b} 1\n";
    assert!(extract_labels(out).is_empty());
    assert!(extract_metrics(out).is_empty());
}

#[test]
fn labels_accumulate_in_order() {
    let out = "#label {a=1}\r\nnoise\n#label { b = 2 ,c}\n#label {d=x=y}";
    assert_eq!(
        extract_labels(out),
        vec![pair("a", "1"), pair("b", "2"), pair("c", ""), pair("d", "x=y")]
    );
}

#[test]
fn series_key_prefixes_gauges() {
    let metrics = extract_metrics("#metric q gauge {a=1} 1\n#metric r counter {a=1} 1");
    assert_eq!(metrics[0].series_key(), "sertus_q");
    assert_eq!(metrics[1].series_key(), "r");
}

#[test]
fn unicode_word_names_are_accepted() {
    let metrics = extract_metrics("#metric é gauge {a=1} 1\n#metric größe_ü counter {a=1} 2");
    assert_eq!(metrics.len(), 2);
    assert_eq!(metrics[0].name, "é");
    assert_eq!(metrics[1].name, "größe_ü");
    assert_eq!(metrics[1].value, MetricValue::U64(2));
    assert!(extract_metrics("#metric a→b gauge {a=1} 1").is_empty());
}

#[test]
fn unknown_kinds_are_reported() {
    let out = "#metric h histogram {a=1} 3\n#metric c counter {a=1} 3\n#metric s summary {b=2} x";
    assert_eq!(unknown_metric_kinds(out), vec!["histogram".to_string(), "summary".to_string()]);
    assert!(unknown_metric_kinds("#metric c counter {a=1} 3").is_empty());
}

#[test]
fn dropped_line_leaves_other_records() {
    let with = extract_metrics("#metric a gauge {x=1} 1\n#metric h histogram {x=1} 2\n#metric b counter {x=1} 3");
    let without = extract_metrics("#metric a gauge {x=1} 1\n#metric b counter {x=1} 3");
    assert_eq!(with, without);
    let bad = extract_metrics("#metric a gauge {x=1} 1\n#metric n counter {x=1} -3\n#metric b counter {x=1} 3");
    assert_eq!(bad.len(), 3);
    assert_eq!(bad[0], without[0]);
    assert_eq!(bad[1].value, MetricValue::U64(0));
    assert_eq!(bad[2], without[1]);
}
