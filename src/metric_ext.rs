//! The output protocol: `#label {k=v, ...}` and `#metric NAME KIND {k=v, ...} VALUE` lines
//! embedded in a checker's output.
//!
//! Output is cut into lines at `\n` (a `\r` before the `\n` is dropped, and a final empty line
//! does not count). A label line starts with `#label {`; its body runs up to the first `}` and
//! must not be empty. A metric line starts with `#metric `, then a NAME of Unicode word
//! characters, whitespace, a KIND of word characters, ` {`, a non-empty body
//! up to the first `}`, whitespace, and a non-empty VALUE that runs to the end of the line.
//! A body is a comma-separated list of items; an item is `KEY=VALUE` cut at its first `=`
//! (an item without `=` gives an empty value), both sides trimmed of whitespace.
//! Lines that match neither form are ignored.
use vstd::prelude::*;
use crate::error::AppError;
use crate::text::{
    chars_of, find, find_char, has_prefix, is_word, is_ws, lemma_find_run, lemma_split_concat,
    lemma_split_nonempty, lemma_split_without_sep, lemma_word_run, lemma_ws_run, slice, split, split_on, starts_with,
    string_of, trim, trimmed, views, word_end, word_end_at, ws_end, ws_end_at,
};

verus! {

/// The value of a metric record. A gauge keeps the text of its floating-point value, which is
/// turned into a number where the record is sent; a counter holds its parsed integer.
#[derive(Debug, Clone, PartialEq)]
pub enum MetricValue {
    F64Text(String),
    U64(u64),
}

/// One `#metric` record.
#[derive(Debug, Clone, PartialEq)]
pub struct MetricStruct {
    pub name: String,
    pub typ: String,
    pub labels: Vec<(String, String)>,
    pub value: MetricValue,
}

/// The mathematical value of a metric record's value.
pub enum ValueModel {
    Gauge(Seq<char>),
    Counter(u64),
}

/// The mathematical value of a metric record.
pub struct MetricModel {
    pub name: Seq<char>,
    pub typ: Seq<char>,
    pub labels: Seq<(Seq<char>, Seq<char>)>,
    pub value: ValueModel,
}

pub open spec fn pair_view(p: (String, String)) -> (Seq<char>, Seq<char>) {
    (p.0@, p.1@)
}

pub open spec fn labels_view(v: Seq<(String, String)>) -> Seq<(Seq<char>, Seq<char>)> {
    v.map_values(|p: (String, String)| pair_view(p))
}

pub open spec fn value_view(v: MetricValue) -> ValueModel {
    match v {
        MetricValue::F64Text(t) => ValueModel::Gauge(t@),
        MetricValue::U64(n) => ValueModel::Counter(n),
    }
}

impl MetricStruct {
    pub open spec fn view(&self) -> MetricModel {
        MetricModel {
            name: self.name@,
            typ: self.typ@,
            labels: labels_view(self.labels@),
            value: value_view(self.value),
        }
    }
}

pub open spec fn metrics_view(v: Seq<MetricStruct>) -> Seq<MetricModel> {
    v.map_values(|m: MetricStruct| m.view())
}

/// `l` without one trailing carriage return.
pub open spec fn strip_cr(l: Seq<char>) -> Seq<char> {
    if l.len() > 0 && l.last() == '\r' {
        l.drop_last()
    } else {
        l
    }
}

/// The lines of `s`, as `str::lines` gives them.
pub open spec fn lines(s: Seq<char>) -> Seq<Seq<char>> {
    let p = split(s, '\n');
    let body = p.drop_last().map_values(|l: Seq<char>| strip_cr(l));
    if p.last().len() == 0 {
        body
    } else {
        body.push(p.last())
    }
}

/// One `KEY=VALUE` item.
pub open spec fn pair_of(item: Seq<char>) -> (Seq<char>, Seq<char>) {
    let e = find(item, 0, '=');
    if e < item.len() {
        (trim(item.subrange(0, e)), trim(item.subrange(e + 1, item.len() as int)))
    } else {
        (trim(item), Seq::empty())
    }
}

/// The items of a brace body, in order.
pub open spec fn pairs_of(body: Seq<char>) -> Seq<(Seq<char>, Seq<char>)> {
    split(body, ',').map_values(|item: Seq<char>| pair_of(item))
}

pub open spec fn label_prefix() -> Seq<char> {
    seq!['#', 'l', 'a', 'b', 'e', 'l', ' ', '{']
}

pub open spec fn metric_prefix() -> Seq<char> {
    seq!['#', 'm', 'e', 't', 'r', 'i', 'c', ' ']
}

pub open spec fn gauge_kind() -> Seq<char> {
    seq!['g', 'a', 'u', 'g', 'e']
}

pub open spec fn counter_kind() -> Seq<char> {
    seq!['c', 'o', 'u', 'n', 't', 'e', 'r']
}

/// The labels that one line declares: none unless it is a label line.
pub open spec fn line_labels(l: Seq<char>) -> Seq<(Seq<char>, Seq<char>)> {
    let rb = find(l, 8, '}');
    if starts_with(l, label_prefix()) && 8 < rb < l.len() {
        pairs_of(l.subrange(8, rb))
    } else {
        Seq::empty()
    }
}

/// The labels that a sequence of lines declares, in order of appearance.
pub open spec fn labels_in(ls: Seq<Seq<char>>) -> Seq<(Seq<char>, Seq<char>)>
    decreases ls.len(),
{
    if ls.len() == 0 {
        Seq::empty()
    } else {
        labels_in(ls.drop_last()) + line_labels(ls.last())
    }
}

/// The labels that a checker's output declares.
pub open spec fn text_labels(s: Seq<char>) -> Seq<(Seq<char>, Seq<char>)> {
    labels_in(lines(s))
}

pub open spec fn is_digit(c: char) -> bool {
    '0' <= c <= '9'
}

/// The number that a string of decimal digits denotes.
pub open spec fn digits_value(d: Seq<char>) -> nat
    decreases d.len(),
{
    if d.len() == 0 {
        0
    } else {
        digits_value(d.drop_last()) * 10 + ((d.last() as u32 - '0' as u32) as nat)
    }
}

/// `t` without one leading `+`.
pub open spec fn unsigned_digits(t: Seq<char>) -> Seq<char> {
    if t.len() > 0 && t[0] == '+' {
        t.drop_first()
    } else {
        t
    }
}

/// An unsigned decimal integer, as `str::parse::<u64>` reads it: an optional `+`, then at
/// least one digit, denoting a number that fits in 64 bits.
pub open spec fn parse_u64(t: Seq<char>) -> Option<u64> {
    let d = unsigned_digits(t);
    if d.len() > 0 && (forall|i: int| 0 <= i < d.len() ==> is_digit(d[i])) && digits_value(d)
        <= u64::MAX {
        Some(digits_value(d) as u64)
    } else {
        None
    }
}

/// The counter value of a metric line: the parsed integer, or zero where it does not parse.
pub open spec fn counter_value(t: Seq<char>) -> u64 {
    match parse_u64(t) {
        Some(n) => n,
        None => 0,
    }
}

/// The four fields of a well-formed metric line.
pub struct MetricShape {
    pub name: Seq<char>,
    pub kind: Seq<char>,
    pub body: Seq<char>,
    pub value: Seq<char>,
}

/// The fields of `l`, if it is a well-formed metric line, whatever its kind.
pub open spec fn metric_shape(l: Seq<char>) -> Option<MetricShape> {
    let ne = word_end(l, 8);
    let ks = ws_end(l, ne);
    let ke = word_end(l, ks);
    let rb = find(l, ke + 2, '}');
    let vs = ws_end(l, rb + 1);
    if !starts_with(l, metric_prefix()) || ne == 8 || ks == ne || ke == ks {
        None
    } else if !(ke + 1 < l.len() && l[ke] == ' ' && l[ke + 1] == '{') {
        None
    } else if !(ke + 2 < rb < l.len()) || vs == rb + 1 || vs >= l.len() {
        None
    } else {
        Some(
            MetricShape {
                name: l.subrange(8, ne),
                kind: l.subrange(ks, ke),
                body: l.subrange(ke + 2, rb),
                value: l.subrange(vs, l.len() as int),
            },
        )
    }
}

pub open spec fn is_known_kind(kind: Seq<char>) -> bool {
    kind == gauge_kind() || kind == counter_kind()
}

/// The record of a well-formed metric line: a gauge keeps its value text, a counter gets its
/// parsed value or zero; a line of any other kind gives none.
pub open spec fn record_of(s: MetricShape) -> Option<MetricModel> {
    if s.kind == gauge_kind() {
        Some(
            MetricModel {
                name: s.name,
                typ: s.kind,
                labels: pairs_of(s.body),
                value: ValueModel::Gauge(s.value),
            },
        )
    } else if s.kind == counter_kind() {
        Some(
            MetricModel {
                name: s.name,
                typ: s.kind,
                labels: pairs_of(s.body),
                value: ValueModel::Counter(counter_value(s.value)),
            },
        )
    } else {
        None
    }
}

/// The metric record that one line declares, if it is a well-formed metric line of a known kind.
pub open spec fn line_metric(l: Seq<char>) -> Option<MetricModel> {
    match metric_shape(l) {
        Some(s) => record_of(s),
        None => None,
    }
}

/// The kind of a well-formed metric line whose kind is neither gauge nor counter.
pub open spec fn line_unknown_kind(l: Seq<char>) -> Option<Seq<char>> {
    match metric_shape(l) {
        Some(s) => if is_known_kind(s.kind) {
            None
        } else {
            Some(s.kind)
        },
        None => None,
    }
}

/// The unknown kinds of the metric lines among `ls`, in order of appearance.
pub open spec fn unknown_kinds_in(ls: Seq<Seq<char>>) -> Seq<Seq<char>>
    decreases ls.len(),
{
    if ls.len() == 0 {
        Seq::empty()
    } else {
        let rest = unknown_kinds_in(ls.drop_last());
        match line_unknown_kind(ls.last()) {
            Some(k) => rest.push(k),
            None => rest,
        }
    }
}

/// The unknown kinds of the metric lines in a checker's output; those lines give no record.
pub open spec fn text_unknown_kinds(s: Seq<char>) -> Seq<Seq<char>> {
    unknown_kinds_in(lines(s))
}

/// The metric records that a sequence of lines declares, in order of appearance.
pub open spec fn metrics_in(ls: Seq<Seq<char>>) -> Seq<MetricModel>
    decreases ls.len(),
{
    if ls.len() == 0 {
        Seq::empty()
    } else {
        let rest = metrics_in(ls.drop_last());
        match line_metric(ls.last()) {
            Some(m) => rest.push(m),
            None => rest,
        }
    }
}

/// The metric records that a checker's output declares.
pub open spec fn text_metrics(s: Seq<char>) -> Seq<MetricModel> {
    metrics_in(lines(s))
}

/// The lines of `s`.
pub fn lines_of(s: &Vec<char>) -> (r: Vec<Vec<char>>)
    ensures
        views(r@) == lines(s@),
{
    let pieces = split_on(s, '\n');
    proof {
        lemma_split_nonempty(s@, '\n');
    }
    let ghost p = split(s@, '\n');
    let n = pieces.len();
    let mut out: Vec<Vec<char>> = Vec::new();
    let mut i: usize = 0;
    while i + 1 < n
        invariant
            n == pieces@.len() >= 1,
            views(pieces@) == p,
            i + 1 <= n,
            views(out@) == p.subrange(0, i as int).map_values(|l: Seq<char>| strip_cr(l)),
        decreases n - i,
    {
        let piece = &pieces[i];
        let len = piece.len();
        let end = if len > 0 && piece[len - 1] == '\r' {
            len - 1
        } else {
            len
        };
        let line = slice(piece, 0, end);
        assert(piece@ == p[i as int]);
        assert(line@ == strip_cr(p[i as int])) by {
            if len > 0 && piece@[len - 1] == '\r' {
                assert(line@ =~= piece@.drop_last());
            } else {
                assert(line@ =~= piece@);
            }
        }
        let ghost old_out = out@;
        out.push(line);
        assert(views(out@) =~= views(old_out).push(line@));
        assert(p.subrange(0, i + 1).map_values(|l: Seq<char>| strip_cr(l)) =~= p.subrange(
            0,
            i as int,
        ).map_values(|l: Seq<char>| strip_cr(l)).push(strip_cr(p[i as int])));
        i = i + 1;
    }
    assert(p.subrange(0, i as int) =~= p.drop_last());
    let last = &pieces[n - 1];
    assert(last@ == p.last());
    if last.len() > 0 {
        let copy = slice(last, 0, last.len());
        assert(copy@ =~= last@);
        out.push(copy);
        assert(views(out@) =~= lines(s@));
    }
    out
}

/// One `KEY=VALUE` item.
pub fn pair_from(item: &Vec<char>) -> (r: (String, String))
    ensures
        pair_view(r) == pair_of(item@),
{
    let e = find_char(item, 0, '=');
    if e < item.len() {
        let key = trimmed(&slice(item, 0, e));
        let value = trimmed(&slice(item, e + 1, item.len()));
        (string_of(&key), string_of(&value))
    } else {
        let key = trimmed(item);
        let empty: Vec<char> = Vec::new();
        let value = string_of(&empty);
        assert(empty@ =~= Seq::<char>::empty());
        (string_of(&key), value)
    }
}

/// The items of a brace body.
pub fn pairs_from(body: &Vec<char>) -> (r: Vec<(String, String)>)
    ensures
        labels_view(r@) == pairs_of(body@),
{
    let items = split_on(body, ',');
    let ghost p = split(body@, ',');
    let mut out: Vec<(String, String)> = Vec::new();
    let mut i: usize = 0;
    while i < items.len()
        invariant
            views(items@) == p,
            i <= items@.len(),
            labels_view(out@) == p.subrange(0, i as int).map_values(|it: Seq<char>| pair_of(it)),
        decreases items@.len() - i,
    {
        let pair = pair_from(&items[i]);
        assert(items@[i as int]@ == p[i as int]);
        let ghost old_out = out@;
        out.push(pair);
        assert(labels_view(out@) =~= labels_view(old_out).push(pair_view(pair)));
        assert(p.subrange(0, i + 1).map_values(|it: Seq<char>| pair_of(it)) =~= p.subrange(
            0,
            i as int,
        ).map_values(|it: Seq<char>| pair_of(it)).push(pair_of(p[i as int])));
        i = i + 1;
    }
    assert(p.subrange(0, i as int) =~= p);
    out
}

/// The labels of one line.
pub fn labels_of_line(l: &Vec<char>) -> (r: Vec<(String, String)>)
    ensures
        labels_view(r@) == line_labels(l@),
{
    let prefix: Vec<char> = vec!['#', 'l', 'a', 'b', 'e', 'l', ' ', '{'];
    assert(prefix@ =~= label_prefix());
    if !has_prefix(l, &prefix) {
        let out: Vec<(String, String)> = Vec::new();
        assert(labels_view(out@) =~= line_labels(l@));
        return out;
    }
    let rb = find_char(l, 8, '}');
    if 8 < rb && rb < l.len() {
        pairs_from(&slice(l, 8, rb))
    } else {
        let out: Vec<(String, String)> = Vec::new();
        assert(labels_view(out@) =~= line_labels(l@));
        out
    }
}

/// The labels that the checker output `text` declares.
pub fn extract_labels(text: &str) -> (r: Vec<(String, String)>)
    ensures
        labels_view(r@) == text_labels(text@),
{
    let cs = chars_of(text);
    let ls = lines_of(&cs);
    let ghost lv = lines(text@);
    let mut out: Vec<(String, String)> = Vec::new();
    let mut i: usize = 0;
    assert(lv.subrange(0, 0) =~= Seq::<Seq<char>>::empty());
    assert(labels_view(out@) =~= labels_in(lv.subrange(0, 0)));
    while i < ls.len()
        invariant
            views(ls@) == lv,
            i <= ls@.len(),
            labels_view(out@) == labels_in(lv.subrange(0, i as int)),
        decreases ls@.len() - i,
    {
        let mut more = labels_of_line(&ls[i]);
        assert(ls@[i as int]@ == lv[i as int]);
        let ghost before = out@;
        let ghost added = more@;
        out.append(&mut more);
        assert(labels_view(out@) =~= labels_view(before) + labels_view(added));
        assert(lv.subrange(0, i + 1).drop_last() =~= lv.subrange(0, i as int));
        i = i + 1;
        assert(labels_view(out@) =~= labels_in(lv.subrange(0, i as int)));
    }
    assert(lv.subrange(0, i as int) =~= lv);
    out
}

proof fn lemma_digits_prefix(s: Seq<char>, i: int)
    requires
        0 <= i <= s.len(),
    ensures
        digits_value(s.subrange(0, i)) <= digits_value(s),
    decreases s.len(),
{
    if i < s.len() {
        assert(s.drop_last().subrange(0, i) =~= s.subrange(0, i));
        lemma_digits_prefix(s.drop_last(), i);
    } else {
        assert(s.subrange(0, i) =~= s);
    }
}

/// An unsigned decimal integer, or `None` where `t` is not one or does not fit in 64 bits.
pub fn parse_u64_text(t: &Vec<char>) -> (r: Option<u64>)
    ensures
        r == parse_u64(t@),
{
    let len = t.len();
    let start: usize = if len > 0 && t[0] == '+' {
        1
    } else {
        0
    };
    let ghost d = t@.subrange(start as int, len as int);
    assert(d =~= unsigned_digits(t@));
    if start == len {
        return None;
    }
    let mut i = start;
    while i < len && '0' <= t[i] && t[i] <= '9'
        invariant
            start <= i <= len == t@.len(),
            forall|k: int| start <= k < i ==> is_digit(t@[k]),
        decreases len - i,
    {
        i = i + 1;
    }
    if i < len {
        assert(d[i - start] == t@[i as int]);
        assert(!is_digit(d[i - start]));
        assert(!(forall|j: int| 0 <= j < d.len() ==> is_digit(d[j])));
        assert(parse_u64(t@) is None);
        return None;
    }
    let mut acc: u64 = 0;
    let mut k = start;
    assert(d.subrange(0, 0) =~= Seq::<char>::empty());
    while k < len
        invariant
            start <= k <= len == t@.len(),
            d == t@.subrange(start as int, len as int),
            d == unsigned_digits(t@),
            forall|j: int| start <= j < len ==> is_digit(t@[j]),
            acc as nat == digits_value(d.subrange(0, k - start)),
        decreases len - k,
    {
        let dg = (t[k] as u32 - '0' as u32) as u64;
        let ghost pre = d.subrange(0, k + 1 - start);
        assert(pre.drop_last() =~= d.subrange(0, k - start));
        assert(pre.last() == t@[k as int]);
        assert(is_digit(t@[k as int]));
        assert(dg as nat == ((pre.last() as u32 - '0' as u32) as nat));
        assert(digits_value(pre) == digits_value(pre.drop_last()) * 10 + dg as nat);
        match acc.checked_mul(10) {
            None => {
                proof {
                    lemma_digits_prefix(d, k + 1 - start);
                    assert(digits_value(d) > u64::MAX);
                }
                return None;
            },
            Some(m) => match m.checked_add(dg) {
                None => {
                    proof {
                        lemma_digits_prefix(d, k + 1 - start);
                        assert(digits_value(d) > u64::MAX);
                        }
                    return None;
                },
                Some(v) => {
                    acc = v;
                },
            },
        }
        k = k + 1;
    }
    assert(d.subrange(0, len - start) =~= d);
    Some(acc)
}

/// The positions that delimit the fields of a well-formed metric line: the end of NAME, the
/// start and end of KIND, the closing brace and the start of VALUE.
fn shape_of_line(l: &Vec<char>) -> (r: Option<(usize, usize, usize, usize, usize)>)
    ensures
        match r {
            Some((ne, ks, ke, rb, vs)) => 8 <= ne <= ks <= ke && ke + 2 <= rb < vs <= l@.len()
                && metric_shape(l@) == Some(
                MetricShape {
                    name: l@.subrange(8, ne as int),
                    kind: l@.subrange(ks as int, ke as int),
                    body: l@.subrange(ke + 2, rb as int),
                    value: l@.subrange(vs as int, l@.len() as int),
                },
            ),
            None => metric_shape(l@) is None,
        },
{
    let prefix: Vec<char> = vec!['#', 'm', 'e', 't', 'r', 'i', 'c', ' '];
    assert(prefix@ =~= metric_prefix());
    if !has_prefix(l, &prefix) {
        return None;
    }
    let len = l.len();
    let ne = word_end_at(l, 8);
    let ks = ws_end_at(l, ne);
    let ke = word_end_at(l, ks);
    if ne == 8 || ks == ne || ke == ks {
        return None;
    }
    if !(ke < len && ke + 1 < len && l[ke] == ' ' && l[ke + 1] == '{') {
        return None;
    }
    let rb = find_char(l, ke + 2, '}');
    if !(ke + 2 < rb && rb < len) {
        return None;
    }
    let vs = ws_end_at(l, rb + 1);
    if vs == rb + 1 || vs >= len {
        return None;
    }
    Some((ne, ks, ke, rb, vs))
}

/// Whether `kind` is exactly `word`.
fn same_chars(kind: &Vec<char>, word: &Vec<char>) -> (r: bool)
    ensures
        r == (kind@ == word@),
{
    let r = has_prefix(kind, word) && kind.len() == word.len();
    proof {
        if kind@.len() == word@.len() {
            assert(kind@.subrange(0, word@.len() as int) =~= kind@);
        }
    }
    r
}

/// The metric record of one line, if it declares one.
pub fn metric_of_line(l: &Vec<char>) -> (r: Option<MetricStruct>)
    ensures
        match r {
            Some(m) => line_metric(l@) == Some(m.view()),
            None => line_metric(l@) is None,
        },
{
    let (ne, ks, ke, rb, vs) = match shape_of_line(l) {
        Some(p) => p,
        None => {
            return None;
        },
    };
    let len = l.len();
    let kind = slice(l, ks, ke);
    let text = slice(l, vs, len);
    let gauge: Vec<char> = vec!['g', 'a', 'u', 'g', 'e'];
    let counter: Vec<char> = vec!['c', 'o', 'u', 'n', 't', 'e', 'r'];
    assert(gauge@ =~= gauge_kind());
    assert(counter@ =~= counter_kind());
    let value = if same_chars(&kind, &gauge) {
        MetricValue::F64Text(string_of(&text))
    } else if same_chars(&kind, &counter) {
        let n = match parse_u64_text(&text) {
            Some(n) => n,
            None => 0,
        };
        MetricValue::U64(n)
    } else {
        return None;
    };
    let name = string_of(&slice(l, 8, ne));
    let labels = pairs_from(&slice(l, ke + 2, rb));
    let m = MetricStruct { name, typ: string_of(&kind), labels, value };
    assert(line_metric(l@) == Some(m.view()));
    Some(m)
}

/// The kind of one line, if it is a well-formed metric line of an unknown kind.
fn unknown_kind_of_line(l: &Vec<char>) -> (r: Option<String>)
    ensures
        match r {
            Some(k) => line_unknown_kind(l@) == Some(k@),
            None => line_unknown_kind(l@) is None,
        },
{
    let (ne, ks, ke, rb, vs) = match shape_of_line(l) {
        Some(p) => p,
        None => {
            return None;
        },
    };
    let kind = slice(l, ks, ke);
    let gauge: Vec<char> = vec!['g', 'a', 'u', 'g', 'e'];
    let counter: Vec<char> = vec!['c', 'o', 'u', 'n', 't', 'e', 'r'];
    assert(gauge@ =~= gauge_kind());
    assert(counter@ =~= counter_kind());
    if same_chars(&kind, &gauge) || same_chars(&kind, &counter) {
        None
    } else {
        Some(string_of(&kind))
    }
}

/// The kinds of the metric lines in `text` that name neither a gauge nor a counter, in order
/// of appearance; those lines give no record.
pub fn unknown_metric_kinds(text: &str) -> (r: Vec<String>)
    ensures
        r@.map_values(|k: String| k@) == text_unknown_kinds(text@),
{
    let cs = chars_of(text);
    let ls = lines_of(&cs);
    let ghost lv = lines(text@);
    let mut out: Vec<String> = Vec::new();
    let mut i: usize = 0;
    assert(lv.subrange(0, 0) =~= Seq::<Seq<char>>::empty());
    assert(out@.map_values(|k: String| k@) =~= unknown_kinds_in(lv.subrange(0, 0)));
    while i < ls.len()
        invariant
            views(ls@) == lv,
            i <= ls@.len(),
            out@.map_values(|k: String| k@) == unknown_kinds_in(lv.subrange(0, i as int)),
        decreases ls@.len() - i,
    {
        assert(ls@[i as int]@ == lv[i as int]);
        assert(lv.subrange(0, i + 1).drop_last() =~= lv.subrange(0, i as int));
        let ghost before = out@;
        match unknown_kind_of_line(&ls[i]) {
            Some(k) => {
                out.push(k);
                assert(out@.map_values(|k: String| k@) =~= before.map_values(|k: String| k@).push(
                    k@,
                ));
            },
            None => {},
        }
        i = i + 1;
    }
    assert(lv.subrange(0, i as int) =~= lv);
    out
}

/// The metric records that the checker output `text` declares.
pub fn extract_metrics(text: &str) -> (r: Vec<MetricStruct>)
    ensures
        metrics_view(r@) == text_metrics(text@),
{
    let cs = chars_of(text);
    let ls = lines_of(&cs);
    let ghost lv = lines(text@);
    let mut out: Vec<MetricStruct> = Vec::new();
    let mut i: usize = 0;
    assert(lv.subrange(0, 0) =~= Seq::<Seq<char>>::empty());
    assert(metrics_view(out@) =~= metrics_in(lv.subrange(0, 0)));
    while i < ls.len()
        invariant
            views(ls@) == lv,
            i <= ls@.len(),
            metrics_view(out@) == metrics_in(lv.subrange(0, i as int)),
        decreases ls@.len() - i,
    {
        assert(ls@[i as int]@ == lv[i as int]);
        assert(lv.subrange(0, i + 1).drop_last() =~= lv.subrange(0, i as int));
        let ghost before = out@;
        match metric_of_line(&ls[i]) {
            Some(m) => {
                out.push(m);
                assert(metrics_view(out@) =~= metrics_view(before).push(m.view()));
            },
            None => {},
        }
        i = i + 1;
    }
    assert(lv.subrange(0, i as int) =~= lv);
    out
}

/// Reads the `#label` lines of a checker's output.
pub trait LabelExtractor {
    /// The text that is read.
    spec fn protocol_text(&self) -> Seq<char>;

    /// The labels declared, in order of appearance; extraction never fails.
    fn extract_label(&self) -> (r: Result<Vec<(String, String)>, AppError>)
        ensures
            r is Ok,
            r is Ok ==> labels_view(r->Ok_0@) == text_labels(self.protocol_text()),
    ;
}

/// Reads the `#metric` lines of a checker's output.
pub trait MetricExtractor {
    /// The text that is read.
    spec fn protocol_text(&self) -> Seq<char>;

    /// The metric records declared, in order of appearance; extraction never fails.
    fn extract_metric(&self) -> (r: Result<Vec<MetricStruct>, AppError>)
        ensures
            r is Ok,
            r is Ok ==> metrics_view(r->Ok_0@) == text_metrics(self.protocol_text()),
    ;
}

impl LabelExtractor for String {
    open spec fn protocol_text(&self) -> Seq<char> {
        self@
    }

    fn extract_label(&self) -> (r: Result<Vec<(String, String)>, AppError>) {
        Ok(extract_labels(self.as_str()))
    }
}

impl MetricExtractor for String {
    open spec fn protocol_text(&self) -> Seq<char> {
        self@
    }

    fn extract_metric(&self) -> (r: Result<Vec<MetricStruct>, AppError>) {
        Ok(extract_metrics(self.as_str()))
    }
}

pub open spec fn gauge_series_prefix() -> Seq<char> {
    seq!['s', 'e', 'r', 't', 'u', 's', '_']
}

impl MetricStruct {
    /// The series under which the record is sent: a gauge's name gets the `sertus_` prefix, a
    /// counter keeps its name.
    pub fn series_key(&self) -> (r: String)
        ensures
            self.typ@ == gauge_kind() ==> r@ == gauge_series_prefix() + self.name@,
            self.typ@ != gauge_kind() ==> r@ == self.name@,
    {
        let kind = chars_of(self.typ.as_str());
        let gauge: Vec<char> = vec!['g', 'a', 'u', 'g', 'e'];
        assert(gauge@ =~= gauge_kind());
        let is_gauge = has_prefix(&kind, &gauge) && kind.len() == gauge.len();
        proof {
            if kind@.len() == gauge@.len() {
                assert(kind@.subrange(0, gauge@.len() as int) =~= kind@);
            }
        }
        let name = chars_of(self.name.as_str());
        if is_gauge {
            let mut key: Vec<char> = vec!['s', 'e', 'r', 't', 'u', 's', '_'];
            let mut rest = name;
            key.append(&mut rest);
            assert(key@ =~= gauge_series_prefix() + self.name@);
            string_of(&key)
        } else {
            string_of(&name)
        }
    }
}


proof fn lemma_no_directive_lines(ls: Seq<Seq<char>>)
    requires
        forall|i: int|
            0 <= i < ls.len() ==> !starts_with(#[trigger] ls[i], label_prefix()) && !starts_with(
                ls[i],
                metric_prefix(),
            ),
    ensures
        labels_in(ls) == Seq::<(Seq<char>, Seq<char>)>::empty(),
        metrics_in(ls) == Seq::<MetricModel>::empty(),
    decreases ls.len(),
{
    if ls.len() > 0 {
        let rest = ls.drop_last();
        assert forall|i: int| 0 <= i < rest.len() implies !starts_with(
            #[trigger] rest[i],
            label_prefix(),
        ) && !starts_with(rest[i], metric_prefix()) by {
            assert(rest[i] == ls[i]);
        }
        lemma_no_directive_lines(rest);
        assert(!starts_with(ls.last(), label_prefix()));
        assert(labels_in(ls) =~= Seq::<(Seq<char>, Seq<char>)>::empty());
    }
}

/// Output in which no line starts a label or metric directive declares no labels and no
/// metric records.
pub proof fn lemma_no_directives_no_records(s: Seq<char>)
    requires
        forall|i: int|
            0 <= i < lines(s).len() ==> !starts_with(#[trigger] lines(s)[i], label_prefix())
                && !starts_with(lines(s)[i], metric_prefix()),
    ensures
        text_labels(s) == Seq::<(Seq<char>, Seq<char>)>::empty(),
        text_metrics(s) == Seq::<MetricModel>::empty(),
{
    lemma_no_directive_lines(lines(s));
}

/// Every metric record that output declares is a gauge or a counter, with a value of its
/// kind: a line of any other kind contributes no record.
pub proof fn lemma_metrics_have_known_kinds(s: Seq<char>)
    ensures
        forall|i: int|
            0 <= i < text_metrics(s).len() ==> {
                let m = #[trigger] text_metrics(s)[i];
                (m.typ == gauge_kind() && m.value is Gauge) || (m.typ == counter_kind()
                    && m.value is Counter)
            },
{
    lemma_metric_kinds_in(lines(s));
}

proof fn lemma_metric_kinds_in(ls: Seq<Seq<char>>)
    ensures
        forall|i: int|
            0 <= i < metrics_in(ls).len() ==> {
                let m = #[trigger] metrics_in(ls)[i];
                (m.typ == gauge_kind() && m.value is Gauge) || (m.typ == counter_kind()
                    && m.value is Counter)
            },
    decreases ls.len(),
{
    if ls.len() > 0 {
        lemma_metric_kinds_in(ls.drop_last());
        let rest = metrics_in(ls.drop_last());
        assert(gauge_kind() != counter_kind()) by {
            assert(gauge_kind().len() != counter_kind().len());
        }
        match line_metric(ls.last()) {
            Some(m) => {
                assert forall|i: int| 0 <= i < metrics_in(ls).len() implies {
                    let x = #[trigger] metrics_in(ls)[i];
                    (x.typ == gauge_kind() && x.value is Gauge) || (x.typ == counter_kind()
                        && x.value is Counter)
                } by {
                    if i < rest.len() {
                        assert(metrics_in(ls)[i] == rest[i]);
                    }
                }
            },
            None => {},
        }
    }
}


/// The text `a`, a line break, `l`, a line break, then `b`.
pub open spec fn around(a: Seq<char>, l: Seq<char>, b: Seq<char>) -> Seq<char> {
    a + seq!['\n'] + l + seq!['\n'] + b
}

proof fn lemma_lines_around(a: Seq<char>, l: Seq<char>, b: Seq<char>)
    requires
        forall|i: int| 0 <= i < l.len() ==> #[trigger] l[i] != '\n',
    ensures
        lines(around(a, l, b)) == lines(a + seq!['\n']) + seq![strip_cr(l)] + lines(b),
        lines(a + seq!['\n'] + b) == lines(a + seq!['\n']) + lines(b),
{
    let nl = seq!['\n'];
    let f = |x: Seq<char>| strip_cr(x);
    lemma_split_without_sep(l, '\n');
    lemma_split_concat(a, l + nl + b, '\n');
    lemma_split_concat(l, b, '\n');
    assert(around(a, l, b) =~= a + nl + (l + nl + b));
    lemma_split_concat(a, b, '\n');
    lemma_split_concat(a, Seq::empty(), '\n');
    assert(a + nl + Seq::<char>::empty() =~= a + nl);
    lemma_split_nonempty(a, '\n');
    lemma_split_nonempty(b, '\n');
    let pa = split(a, '\n');
    let pb = split(b, '\n');
    assert(split(Seq::<char>::empty(), '\n') =~= seq![Seq::<char>::empty()]);
    assert(lines(a + nl) =~= pa.map_values(f));
    let p1 = pa + seq![l] + pb;
    assert(split(around(a, l, b), '\n') =~= p1);
    assert(p1.drop_last().map_values(f) =~= pa.map_values(f) + seq![strip_cr(l)]
        + pb.drop_last().map_values(f));
    assert(p1.last() == pb.last());
    assert(lines(around(a, l, b)) =~= lines(a + nl) + seq![strip_cr(l)] + lines(b));
    let p2 = pa + pb;
    assert(p2.drop_last().map_values(f) =~= pa.map_values(f) + pb.drop_last().map_values(f));
    assert(p2.last() == pb.last());
    assert(lines(a + nl + b) =~= lines(a + nl) + lines(b));
}

proof fn lemma_metrics_concat(l1: Seq<Seq<char>>, l2: Seq<Seq<char>>)
    ensures
        metrics_in(l1 + l2) == metrics_in(l1) + metrics_in(l2),
        unknown_kinds_in(l1 + l2) == unknown_kinds_in(l1) + unknown_kinds_in(l2),
    decreases l2.len(),
{
    if l2.len() == 0 {
        assert(l1 + l2 =~= l1);
        assert(metrics_in(l1) + metrics_in(l2) =~= metrics_in(l1));
        assert(unknown_kinds_in(l1) + unknown_kinds_in(l2) =~= unknown_kinds_in(l1));
    } else {
        assert((l1 + l2).drop_last() =~= l1 + l2.drop_last());
        assert((l1 + l2).last() == l2.last());
        lemma_metrics_concat(l1, l2.drop_last());
        assert(metrics_in(l1 + l2) =~= metrics_in(l1) + metrics_in(l2));
        assert(unknown_kinds_in(l1 + l2) =~= unknown_kinds_in(l1) + unknown_kinds_in(l2));
    }
}

/// The line `#metric NAME KIND {BODY} VALUE`.
pub open spec fn metric_line(name: Seq<char>, kind: Seq<char>, body: Seq<char>, value: Seq<char>) -> Seq<char> {
    metric_prefix() + name + seq![' '] + kind + seq![' ', '{'] + body + seq!['}', ' '] + value
}

/// What a metric line's fields must be for the line to be well formed.
pub open spec fn fields_ok(name: Seq<char>, kind: Seq<char>, body: Seq<char>, value: Seq<char>) -> bool {
    &&& name.len() > 0
    &&& forall|i: int| 0 <= i < name.len() ==> is_word(#[trigger] name[i])
    &&& kind.len() > 0
    &&& forall|i: int| 0 <= i < kind.len() ==> is_word(#[trigger] kind[i])
    &&& !is_ws(kind[0])
    &&& body.len() > 0
    &&& forall|i: int| 0 <= i < body.len() ==> #[trigger] body[i] != '}' && body[i] != '\n'
    &&& value.len() > 0
    &&& !is_ws(value[0])
    &&& forall|i: int| 0 <= i < value.len() ==> #[trigger] value[i] != '\n'
}

proof fn lemma_metric_line_shape(name: Seq<char>, kind: Seq<char>, body: Seq<char>, value: Seq<char>)
    requires
        fields_ok(name, kind, body, value),
    ensures
        metric_shape(metric_line(name, kind, body, value)) == Some(
            MetricShape { name, kind, body, value },
        ),
        forall|i: int|
            0 <= i < metric_line(name, kind, body, value).len() ==> #[trigger] metric_line(
                name,
                kind,
                body,
                value,
            )[i] != '\n',
{
    let l = metric_line(name, kind, body, value);
    let ne: int = 8 + name.len() as int;
    let ks: int = ne + 1;
    let ke: int = ks + kind.len() as int;
    let rb: int = ke + 2 + body.len() as int;
    let vs: int = rb + 2;
    assert(l.len() == vs + value.len());
    assert forall|k: int| 8 <= k < ne implies is_word(l[k]) by {
        assert(l[k] == name[k - 8]);
    }
    assert(l[ne] == ' ');
    lemma_word_run(l, 8, ne);
    assert(l[ks] == kind[0]);
    lemma_ws_run(l, ne, ks);
    assert forall|k: int| ks <= k < ke implies is_word(l[k]) by {
        assert(l[k] == kind[k - ks]);
    }
    assert(l[ke] == ' ');
    assert(l[ke + 1] == '{');
    lemma_word_run(l, ks, ke);
    assert forall|k: int| ke + 2 <= k < rb implies l[k] != '}' by {
        assert(l[k] == body[k - ke - 2]);
    }
    assert(l[rb] == '}');
    lemma_find_run(l, ke + 2, rb, '}');
    assert(l[rb + 1] == ' ');
    assert(l[vs] == value[0]);
    lemma_ws_run(l, rb + 1, vs);
    assert(metric_prefix().len() == 8);
    assert(l.subrange(0, 8) =~= metric_prefix());
    assert(l.subrange(8, ne) =~= name);
    assert(l.subrange(ks, ke) =~= kind);
    assert(l.subrange(ke + 2, rb) =~= body);
    assert(l.subrange(vs, l.len() as int) =~= value);
    assert forall|i: int| 0 <= i < l.len() implies l[i] != '\n' by {
        if 8 <= i < ne {
            assert(l[i] == name[i - 8]);
        } else if ks <= i < ke {
            assert(l[i] == kind[i - ks]);
        } else if ke + 2 <= i < rb {
            assert(l[i] == body[i - ke - 2]);
        } else if vs <= i {
            assert(l[i] == value[i - vs]);
        } else if i < 8 {
            assert(l[i] == metric_prefix()[i]);
        }
    }
}

/// A line as `str::lines` yields it loses a final `\r`, which only shortens the value.
proof fn lemma_metric_line_strip_cr(name: Seq<char>, kind: Seq<char>, body: Seq<char>, value: Seq<char>)
    requires
        fields_ok(name, kind, body, value),
    ensures
        strip_cr(metric_line(name, kind, body, value)) == metric_line(name, kind, body, strip_cr(value)),
        fields_ok(name, kind, body, strip_cr(value)),
{
    let l = metric_line(name, kind, body, value);
    if value.last() == '\r' {
        assert(is_ws('\r'));
        assert(value.len() >= 2);
        assert(l.last() == value.last());
        assert(l.drop_last() =~= metric_line(name, kind, body, value.drop_last()));
        assert(strip_cr(value)[0] == value[0]);
    } else {
        assert(l.last() == value.last());
    }
}


proof fn lemma_single_line(x: Seq<char>)
    ensures
        metrics_in(seq![x]) == match line_metric(x) {
            Some(m) => seq![m],
            None => Seq::<MetricModel>::empty(),
        },
        unknown_kinds_in(seq![x]) == match line_unknown_kind(x) {
            Some(k) => seq![k],
            None => Seq::<Seq<char>>::empty(),
        },
{
    let ls = seq![x];
    assert(ls.drop_last() =~= Seq::<Seq<char>>::empty());
    assert(ls.last() == x);
    assert(metrics_in(ls.drop_last()) == Seq::<MetricModel>::empty());
    assert(unknown_kinds_in(ls.drop_last()) == Seq::<Seq<char>>::empty());
    match line_metric(x) {
        Some(m) => {
            assert(metrics_in(ls) =~= seq![m]);
        },
        None => {},
    }
    match line_unknown_kind(x) {
        Some(k) => {
            assert(unknown_kinds_in(ls) =~= seq![k]);
        },
        None => {},
    }
    assert(metrics_in(ls) =~= match line_metric(x) {
        Some(m) => seq![m],
        None => Seq::<MetricModel>::empty(),
    });
    assert(unknown_kinds_in(ls) =~= match line_unknown_kind(x) {
        Some(k) => seq![k],
        None => Seq::<Seq<char>>::empty(),
    });
}

proof fn lemma_around(a: Seq<char>, b: Seq<char>, x: Seq<char>, l: Seq<char>)
    requires
        forall|i: int| 0 <= i < l.len() ==> #[trigger] l[i] != '\n',
        x == strip_cr(l),
    ensures
        text_metrics(around(a, l, b)) == text_metrics(a + seq!['\n']) + metrics_in(seq![x])
            + text_metrics(b),
        text_unknown_kinds(around(a, l, b)) == text_unknown_kinds(a + seq!['\n'])
            + unknown_kinds_in(seq![x]) + text_unknown_kinds(b),
        text_metrics(a + seq!['\n'] + b) == text_metrics(a + seq!['\n']) + text_metrics(b),
        text_unknown_kinds(a + seq!['\n'] + b) == text_unknown_kinds(a + seq!['\n'])
            + text_unknown_kinds(b),
{
    lemma_lines_around(a, l, b);
    let la = lines(a + seq!['\n']);
    let lb = lines(b);
    lemma_metrics_concat(la + seq![x], lb);
    lemma_metrics_concat(la, seq![x]);
    lemma_metrics_concat(la, lb);
}

/// The record of a metric line of a known kind.
pub open spec fn known_record(name: Seq<char>, kind: Seq<char>, body: Seq<char>, v: Seq<char>) -> MetricModel {
    MetricModel {
        name,
        typ: kind,
        labels: pairs_of(body),
        value: if kind == gauge_kind() {
            ValueModel::Gauge(v)
        } else {
            ValueModel::Counter(counter_value(v))
        },
    }
}

proof fn lemma_known_line(name: Seq<char>, kind: Seq<char>, body: Seq<char>, value: Seq<char>)
    requires
        is_known_kind(kind),
        fields_ok(name, kind, body, value),
    ensures
        metrics_in(seq![strip_cr(metric_line(name, kind, body, value))]) == seq![
            known_record(name, kind, body, strip_cr(value)),
        ],
        forall|i: int|
            0 <= i < metric_line(name, kind, body, value).len() ==> #[trigger] metric_line(
                name,
                kind,
                body,
                value,
            )[i] != '\n',
{
    lemma_metric_line_shape(name, kind, body, value);
    lemma_metric_line_strip_cr(name, kind, body, value);
    let v = strip_cr(value);
    lemma_metric_line_shape(name, kind, body, v);
    let x = strip_cr(metric_line(name, kind, body, value));
    assert(line_metric(x) == Some(known_record(name, kind, body, v)));
    lemma_single_line(x);
}

/// A metric line of a known kind gives its record at its place among the records of the other
/// lines, which it leaves as they are. A value that does not parse does not drop the record: a
/// counter then counts zero, and a gauge keeps the text, which is sent as zero.
pub proof fn lemma_metric_line_keeps_record(
    a: Seq<char>,
    b: Seq<char>,
    name: Seq<char>,
    kind: Seq<char>,
    body: Seq<char>,
    value: Seq<char>,
)
    requires
        is_known_kind(kind),
        fields_ok(name, kind, body, value),
    ensures
        text_metrics(around(a, metric_line(name, kind, body, value), b)) == text_metrics(
            a + seq!['\n'],
        ) + seq![known_record(name, kind, body, strip_cr(value))] + text_metrics(b),
        text_metrics(a + seq!['\n'] + b) == text_metrics(a + seq!['\n']) + text_metrics(b),
        kind == counter_kind() && parse_u64(strip_cr(value)) is None ==> known_record(
            name,
            kind,
            body,
            strip_cr(value),
        ).value == ValueModel::Counter(0),
{
    let l = metric_line(name, kind, body, value);
    lemma_known_line(name, kind, body, value);
    lemma_around(a, b, strip_cr(l), l);
    assert(counter_kind() != gauge_kind()) by {
        assert(counter_kind().len() != gauge_kind().len());
    }
}

/// A metric line of any other kind gives no record, as if it were not there, and its kind is
/// reported among the unknown kinds, at its place.
pub proof fn lemma_unknown_kind_line_dropped(
    a: Seq<char>,
    b: Seq<char>,
    name: Seq<char>,
    kind: Seq<char>,
    body: Seq<char>,
    value: Seq<char>,
)
    requires
        !is_known_kind(kind),
        fields_ok(name, kind, body, value),
    ensures
        text_metrics(around(a, metric_line(name, kind, body, value), b)) == text_metrics(
            a + seq!['\n'] + b,
        ),
        text_unknown_kinds(around(a, metric_line(name, kind, body, value), b))
            == text_unknown_kinds(a + seq!['\n']) + seq![kind] + text_unknown_kinds(b),
{
    let l = metric_line(name, kind, body, value);
    lemma_metric_line_shape(name, kind, body, value);
    lemma_metric_line_strip_cr(name, kind, body, value);
    lemma_metric_line_shape(name, kind, body, strip_cr(value));
    lemma_single_line(strip_cr(l));
    lemma_around(a, b, strip_cr(l), l);
    assert(metrics_in(seq![strip_cr(l)]) =~= Seq::<MetricModel>::empty());
    assert(text_metrics(a + seq!['\n']) + Seq::<MetricModel>::empty() =~= text_metrics(
        a + seq!['\n'],
    ));
}

} // verus!
