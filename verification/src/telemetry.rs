//! Telemetry snapshots: byte counters per interface from `/proc/net/dev` and
//! the number of tracked connections.

use vstd::prelude::*;
use crate::json::{JsonValue, JsonView, NumberView, field, object, array, jnum, jstring, jstr,
    fields_view, items_view};
use crate::text::{chars_of, lines, split_ws, parse_uint, string_of, views, lines_spec, split_ws_spec,
    parse_uint_spec, find_char, find_char_spec, trim, trim_spec, slice_of, trim_str};

verus! {

/// A decimal `u64`, or 0 when the text is not one.
pub open spec fn u64_or_zero(t: Seq<char>) -> nat {
    match parse_uint_spec(t, 0xffff_ffff_ffff_ffff) {
        Some(v) => v as nat,
        None => 0,
    }
}

/// The counters of one `/proc/net/dev` line `name: field...`: received bytes
/// are the first field and sent bytes the ninth; lines without `':'` or with
/// fewer than 16 fields give nothing.
pub open spec fn line_counters(l: Seq<char>) -> Option<JsonView> {
    let i = find_char_spec(l, ':');
    if i >= l.len() {
        None
    } else {
        let fs = split_ws_spec(l.subrange(i as int + 1, l.len() as int));
        if fs.len() < 16 {
            None
        } else {
            Some(
                JsonView::Object(
                    seq![
                        ("interface"@, JsonView::Str(trim_spec(l.subrange(0, i as int)))),
                        ("rxBytes"@, JsonView::Number(NumberView::PosInt(u64_or_zero(fs[0])))),
                        ("txBytes"@, JsonView::Number(NumberView::PosInt(u64_or_zero(fs[8])))),
                    ],
                ),
            )
        }
    }
}

pub open spec fn counters_of_lines(ls: Seq<Seq<char>>) -> Seq<JsonView>
    decreases ls.len(),
{
    if ls.len() == 0 {
        seq![]
    } else {
        counters_of_lines(ls.drop_last()) + match line_counters(ls.last()) {
            Some(c) => seq![c],
            None => seq![],
        }
    }
}

/// The counters of every interface line, after the two header lines.
pub open spec fn interface_counters_spec(dev: Seq<char>) -> Seq<JsonView> {
    let ls = lines_spec(dev);
    counters_of_lines(if ls.len() > 2 { ls.subrange(2, ls.len() as int) } else { seq![] })
}

fn parse_or_zero(t: &[char]) -> (r: u64)
    ensures
        r as nat == u64_or_zero(t@),
{
    match parse_uint(t, 0xffff_ffff_ffff_ffff) {
        Some(v) => v,
        None => 0,
    }
}

fn counters_of_line(l: &[char]) -> (r: Option<JsonValue>)
    ensures
        match r {
            Some(c) => line_counters(l@) == Some(c@),
            None => line_counters(l@) is None,
        },
{
    let n = l.len();
    let i = find_char(l, 0, ':');
    assert(l@.subrange(0, n as int) =~= l@);
    if i >= n {
        return None;
    }
    let rest = slice_of(l, i + 1, n);
    let fs = split_ws(rest.as_slice());
    if fs.len() < 16 {
        return None;
    }
    let name_raw = slice_of(l, 0, i);
    let name = trim(name_raw.as_slice());
    let rx = parse_or_zero(fs[0].as_slice());
    let tx = parse_or_zero(fs[8].as_slice());
    let fields = vec![
        field("interface", jstring(string_of(name.as_slice()))),
        field("rxBytes", jnum(rx)),
        field("txBytes", jnum(tx)),
    ];
    let r = object(fields);
    assert(fields_view(fields@) =~= match line_counters(l@) { Some(JsonView::Object(f)) => f, _ => Seq::empty() });
    Some(r)
}

/// The byte counters of each interface in the text of `/proc/net/dev`.
pub fn interface_counters(dev: &str) -> (r: Vec<JsonValue>)
    ensures
        items_view(r@) == interface_counters_spec(dev@),
{
    let text = chars_of(dev);
    let all = lines(text.as_slice());
    let n = all.len();
    let ghost ls = if views(all@).len() > 2 { views(all@).subrange(2, n as int) } else { Seq::<Seq<char>>::empty() };
    let mut out: Vec<JsonValue> = Vec::new();
    let mut i: usize = 2;
    assert(ls.subrange(0, 0) =~= Seq::<Seq<char>>::empty());
    assert(items_view(out@) =~= Seq::<JsonView>::empty());
    while i < n
        invariant
            n == all@.len(),
            n > 2 ==> ls == views(all@).subrange(2, n as int),
            2 <= i,
            n > 2 ==> i <= n,
            n > 2 ==> items_view(out@) == counters_of_lines(ls.subrange(0, i - 2)),
            n <= 2 ==> out@.len() == 0,
        decreases n - i,
    {
        let ghost before = items_view(out@);
        assert(ls.subrange(0, i - 1).drop_last() =~= ls.subrange(0, i - 2));
        assert(ls.subrange(0, i - 1).last() == all@[i as int]@);
        match counters_of_line(all[i].as_slice()) {
            Some(c) => {
                out.push(c);
                assert(items_view(out@) =~= before + seq![line_counters(all@[i as int]@)->0]);
            },
            None => {},
        }
        i = i + 1;
    }
    if n > 2 {
        assert(ls.subrange(0, n - 2) =~= ls);
    } else {
        assert(items_view(out@) =~= Seq::<JsonView>::empty());
    }
    out
}

/// The number of tracked connections from `nf_conntrack_count`: its trimmed
/// text as a `u64`, else 0.
pub open spec fn connection_count_spec(count_file: Option<Seq<char>>) -> JsonView {
    let count = match count_file {
        Some(t) => u64_or_zero(trim_spec(t)),
        None => 0,
    };
    JsonView::Array(
        seq![
            JsonView::Object(
                seq![
                    ("type"@, JsonView::Str("conntrack"@)),
                    ("count"@, JsonView::Number(NumberView::PosInt(count))),
                ],
            ),
        ],
    )
}

pub fn connection_count(count_file: Option<&str>) -> (r: JsonValue)
    ensures
        r@ == connection_count_spec(match count_file { Some(t) => Some(t@), None => None }),
{
    let count = match count_file {
        Some(t) => {
            let c = chars_of(t);
            let tt = trim(c.as_slice());
            parse_or_zero(tt.as_slice())
        },
        None => 0,
    };
    let fields = vec![field("type", jstr("conntrack")), field("count", jnum(count))];
    let o = object(fields);
    let ghost ov = o@;
    assert(fields_view(fields@) =~= seq![
        ("type"@, JsonView::Str("conntrack"@)),
        ("count"@, JsonView::Number(NumberView::PosInt(count as nat))),
    ]);
    let items = vec![o];
    let r = array(items);
    assert(items_view(items@) =~= seq![ov]);
    r
}

/// A telemetry snapshot: interface counters (reported as both `interfaces`
/// and `traffic`), the connection count, and no firewall counters.
pub open spec fn snapshot_spec(dev: Seq<char>, count_file: Option<Seq<char>>) -> JsonView {
    let counters = JsonView::Array(interface_counters_spec(dev));
    JsonView::Object(
        seq![
            ("interfaces"@, counters),
            ("traffic"@, counters),
            ("connections"@, connection_count_spec(count_file)),
            ("firewallCounters"@, JsonView::Array(seq![])),
        ],
    )
}

/// A telemetry snapshot from the text of `/proc/net/dev` (empty when it
/// cannot be read) and of `nf_conntrack_count`.
pub fn snapshot(dev: &str, count_file: Option<&str>) -> (r: JsonValue)
    ensures
        r@ == snapshot_spec(dev@, match count_file { Some(t) => Some(t@), None => None }),
{
    let a = interface_counters(dev);
    let b = interface_counters(dev);
    let ghost cv = items_view(a@);
    let empty: Vec<JsonValue> = Vec::new();
    let fields = vec![
        field("interfaces", array(a)),
        field("traffic", array(b)),
        field("connections", connection_count(count_file)),
        field("firewallCounters", array(empty)),
    ];
    let r = object(fields);
    assert(items_view(empty@) =~= Seq::<JsonView>::empty());
    assert(fields_view(fields@) =~= match snapshot_spec(dev@, match count_file { Some(t) => Some(t@), None => None }) { JsonView::Object(f) => f, _ => Seq::empty() });
    r
}

} // verus!
