//! The connection-tracking table: each line of `/proc/net/nf_conntrack`
//! read into a connection.

use vstd::prelude::*;
use crate::json::{JsonValue, JsonView, NumberView, JsonField, field, object, array, jnum, jopt_string,
    jopt_num, jstring, fields_view, items_view, opt_str_view, opt_num_view};
use crate::text::{chars_of, lines, split_ws, strip_prefix, parse_uint, string_of, views, lines_spec,
    split_ws_spec, strip_prefix_spec, parse_uint_spec, has_char, owned};

verus! {

/// `proto_name`: the third token, or `unknown`.
pub open spec fn proto_name_spec(tokens: Seq<Seq<char>>) -> Seq<char> {
    if tokens.len() > 2 {
        tokens[2]
    } else {
        "unknown"@
    }
}

/// A connection state such as `ESTABLISHED`: more than two characters, all
/// ASCII capitals or `'_'`.
pub open spec fn is_state_spec(t: Seq<char>) -> bool {
    t.len() > 2 && forall|i: int| 0 <= i < t.len() ==> ('A' <= #[trigger] t[i] && t[i] <= 'Z') || t[i] == '_'
}

/// The rest of the first token that starts with `prefix`.
pub open spec fn first_text(ts: Seq<Seq<char>>, prefix: Seq<char>) -> Option<Seq<char>>
    decreases ts.len(),
{
    if ts.len() == 0 {
        None
    } else {
        match strip_prefix_spec(ts[0], prefix) {
            Some(r) => Some(r),
            None => first_text(ts.drop_first(), prefix),
        }
    }
}

/// The number after `prefix` in the first token where it is one no larger than `max`.
pub open spec fn first_number(ts: Seq<Seq<char>>, prefix: Seq<char>, max: int) -> Option<int>
    decreases ts.len(),
{
    if ts.len() == 0 {
        None
    } else {
        match strip_prefix_spec(ts[0], prefix) {
            Some(r) => match parse_uint_spec(r, max) {
                Some(v) => Some(v),
                None => first_number(ts.drop_first(), prefix, max),
            },
            None => first_number(ts.drop_first(), prefix, max),
        }
    }
}

/// The first token that is a connection state.
pub open spec fn first_state(ts: Seq<Seq<char>>) -> Option<Seq<char>>
    decreases ts.len(),
{
    if ts.len() == 0 {
        None
    } else if is_state_spec(ts[0]) {
        Some(ts[0])
    } else {
        first_state(ts.drop_first())
    }
}

/// The byte count of one token.
pub open spec fn token_bytes(t: Seq<char>) -> int {
    match strip_prefix_spec(t, "bytes="@) {
        Some(r) => match parse_uint_spec(r, 0xffff_ffff_ffff_ffff) {
            Some(v) => v,
            None => 0,
        },
        None => 0,
    }
}

/// The sum of the `bytes=` counts of all tokens (both directions).
pub open spec fn bytes_sum(ts: Seq<Seq<char>>) -> int
    decreases ts.len(),
{
    if ts.len() == 0 {
        0
    } else {
        bytes_sum(ts.drop_last()) + token_bytes(ts.last())
    }
}

pub open spec fn num_view(n: Option<int>) -> JsonView {
    match n {
        Some(x) => JsonView::Number(NumberView::PosInt(x as nat)),
        None => JsonView::Null,
    }
}

/// The JSON of one connection line with at least four tokens; the byte total
/// wraps around at 2^64 as the agent's release build computes it.
pub open spec fn connection_spec(ts: Seq<Seq<char>>) -> JsonView {
    JsonView::Object(
        seq![
            ("protocol"@, JsonView::Str(proto_name_spec(ts))),
            ("src"@, opt_str_view(first_text(ts, "src="@))),
            ("dst"@, opt_str_view(first_text(ts, "dst="@))),
            ("sport"@, num_view(first_number(ts, "sport="@, 0xffff_ffff))),
            ("dport"@, num_view(first_number(ts, "dport="@, 0xffff_ffff))),
            ("state"@, opt_str_view(first_state(ts))),
            ("bytes"@, JsonView::Number(NumberView::PosInt((bytes_sum(ts) % 0x1_0000_0000_0000_0000) as nat))),
        ],
    )
}

/// The connections of the first `limit` lines, skipping lines with fewer than four tokens.
pub open spec fn connections_spec(ls: Seq<Seq<char>>) -> Seq<JsonView>
    decreases ls.len(),
{
    if ls.len() == 0 {
        seq![]
    } else {
        connections_spec(ls.drop_last()) + if split_ws_spec(ls.last()).len() < 4 {
            seq![]
        } else {
            seq![connection_spec(split_ws_spec(ls.last()))]
        }
    }
}

/// The first `limit` lines of a text.
pub open spec fn first_lines(content: Seq<char>, limit: nat) -> Seq<Seq<char>> {
    let ls = lines_spec(content);
    if limit < ls.len() {
        ls.take(limit as int)
    } else {
        ls
    }
}

/// The result of a conntrack listing: the connections and their number.
pub open spec fn conntrack_spec(content: Seq<char>, limit: nat) -> JsonView {
    let cs = connections_spec(first_lines(content, limit));
    JsonView::Object(
        seq![
            ("connections"@, JsonView::Array(cs)),
            ("count"@, JsonView::Number(NumberView::PosInt(cs.len()))),
        ],
    )
}

pub fn proto_name(tokens: &Vec<Vec<char>>) -> (r: String)
    ensures
        r@ == proto_name_spec(views(tokens@)),
{
    if tokens.len() > 2 {
        string_of(tokens[2].as_slice())
    } else {
        owned("unknown")
    }
}

pub fn is_state(token: &[char]) -> (r: bool)
    ensures
        r == is_state_spec(token@),
{
    let n = token.len();
    if n <= 2 {
        return false;
    }
    let mut i: usize = 0;
    while i < n
        invariant
            n == token@.len(),
            i <= n,
            forall|k: int| 0 <= k < i ==> ('A' <= #[trigger] token@[k] && token@[k] <= 'Z') || token@[k] == '_',
        decreases n - i,
    {
        let c = token[i];
        if !(('A' <= c && c <= 'Z') || c == '_') {
            return false;
        }
        i = i + 1;
    }
    true
}

/// The connection that a line's tokens describe.
fn connection(ts: &Vec<Vec<char>>) -> (r: JsonValue)
    requires
        ts@.len() >= 4,
    ensures
        r@ == connection_spec(views(ts@)),
{
    let ghost tv = views(ts@);
    let src_p = chars_of("src=");
    let dst_p = chars_of("dst=");
    let sport_p = chars_of("sport=");
    let dport_p = chars_of("dport=");
    let bytes_p = chars_of("bytes=");
    let mut src: Option<String> = None;
    let mut dst: Option<String> = None;
    let mut sport: Option<u64> = None;
    let mut dport: Option<u64> = None;
    let mut state: Option<String> = None;
    let mut bytes: u64 = 0;
    let n = ts.len();
    let mut i: usize = 0;
    assert(tv.subrange(0, n as int) =~= tv);
    assert(tv.subrange(0, 0) =~= Seq::<Seq<char>>::empty());
    while i < n
        invariant
            n == ts@.len(),
            tv == views(ts@),
            i <= n,
            src_p@ == "src="@,
            dst_p@ == "dst="@,
            sport_p@ == "sport="@,
            dport_p@ == "dport="@,
            bytes_p@ == "bytes="@,
            first_text(tv, "src="@) == match src {
                Some(x) => Some(x@),
                None => first_text(tv.subrange(i as int, n as int), "src="@),
            },
            first_text(tv, "dst="@) == match dst {
                Some(x) => Some(x@),
                None => first_text(tv.subrange(i as int, n as int), "dst="@),
            },
            first_number(tv, "sport="@, 0xffff_ffff) == match sport {
                Some(x) => Some(x as int),
                None => first_number(tv.subrange(i as int, n as int), "sport="@, 0xffff_ffff),
            },
            first_number(tv, "dport="@, 0xffff_ffff) == match dport {
                Some(x) => Some(x as int),
                None => first_number(tv.subrange(i as int, n as int), "dport="@, 0xffff_ffff),
            },
            first_state(tv) == match state {
                Some(x) => Some(x@),
                None => first_state(tv.subrange(i as int, n as int)),
            },
            bytes as int == bytes_sum(tv.subrange(0, i as int)) % 0x1_0000_0000_0000_0000,
        decreases n - i,
    {
        let t = ts[i].as_slice();
        let ghost rest = tv.subrange(i as int, n as int);
        assert(rest[0] == t@);
        assert(rest.drop_first() =~= tv.subrange(i + 1, n as int));
        if src.is_none() {
            match strip_prefix(t, src_p.as_slice()) {
                Some(r) => {
                    src = Some(string_of(r.as_slice()));
                },
                None => {},
            }
        }
        if dst.is_none() {
            match strip_prefix(t, dst_p.as_slice()) {
                Some(r) => {
                    dst = Some(string_of(r.as_slice()));
                },
                None => {},
            }
        }
        if sport.is_none() {
            match strip_prefix(t, sport_p.as_slice()) {
                Some(r) => {
                    sport = parse_uint(r.as_slice(), 0xffff_ffff);
                },
                None => {},
            }
        }
        if dport.is_none() {
            match strip_prefix(t, dport_p.as_slice()) {
                Some(r) => {
                    dport = parse_uint(r.as_slice(), 0xffff_ffff);
                },
                None => {},
            }
        }
        let mut b: u64 = 0;
        match strip_prefix(t, bytes_p.as_slice()) {
            Some(r) => match parse_uint(r.as_slice(), 0xffff_ffff_ffff_ffff) {
                Some(v) => {
                    b = v;
                },
                None => {},
            },
            None => {},
        }
        assert(b as int == token_bytes(t@));
        proof {
            assert(tv.subrange(0, i + 1).drop_last() =~= tv.subrange(0, i as int));
            assert(tv.subrange(0, i + 1).last() == t@);
            vstd::arithmetic::div_mod::lemma_add_mod_noop(bytes_sum(tv.subrange(0, i as int)), b as int, 0x1_0000_0000_0000_0000);
            assert((b as int) % 0x1_0000_0000_0000_0000 == b as int) by {
                vstd::arithmetic::div_mod::lemma_small_mod(b as nat, 0x1_0000_0000_0000_0000);
            }
        }
        bytes = bytes.wrapping_add(b);
        if state.is_none() && is_state(t) {
            state = Some(string_of(t));
        }
        i = i + 1;
    }
    let ghost tail = tv.subrange(n as int, n as int);
    assert(tail =~= Seq::<Seq<char>>::empty());
    let fields = vec![
        field("protocol", jstring(proto_name(ts))),
        field("src", jopt_string(src)),
        field("dst", jopt_string(dst)),
        field("sport", jopt_num(sport)),
        field("dport", jopt_num(dport)),
        field("state", jopt_string(state)),
        field("bytes", jnum(bytes)),
    ];
    let r = object(fields);
    assert(fields_view(fields@) =~= match connection_spec(tv) { JsonView::Object(f) => f, _ => Seq::empty() });
    r
}

/// The connections in the first `limit` lines of the conntrack table, and their number.
pub fn conntrack(content: &str, limit: usize) -> (r: JsonValue)
    ensures
        r@ == conntrack_spec(content@, limit as nat),
{
    let text = chars_of(content);
    let all = lines(text.as_slice());
    let ghost ls = first_lines(content@, limit as nat);
    let m = if limit < all.len() {
        limit
    } else {
        all.len()
    };
    assert(ls =~= views(all@).subrange(0, m as int));
    let mut conns: Vec<JsonValue> = Vec::new();
    let mut i: usize = 0;
    assert(ls.subrange(0, 0) =~= Seq::<Seq<char>>::empty());
    assert(items_view(conns@) =~= Seq::<JsonView>::empty());
    while i < m
        invariant
            m <= all@.len(),
            ls == views(all@).subrange(0, m as int),
            i <= m,
            items_view(conns@) == connections_spec(ls.subrange(0, i as int)),
        decreases m - i,
    {
        let ts = split_ws(all[i].as_slice());
        let ghost before = items_view(conns@);
        assert(ls.subrange(0, i + 1).drop_last() =~= ls.subrange(0, i as int));
        assert(ls.subrange(0, i + 1).last() == all@[i as int]@);
        if ts.len() >= 4 {
            let c = connection(&ts);
            conns.push(c);
            assert(items_view(conns@) =~= before + seq![connection_spec(views(ts@))]);
        } else {
            assert(views(ts@).len() == ts@.len());
        }
        i = i + 1;
    }
    assert(ls.subrange(0, m as int) =~= ls);
    let count = conns.len();
    let ghost cs = items_view(conns@);
    let fields = vec![field("connections", array(conns)), field("count", jnum(count as u64))];
    let r = object(fields);
    assert(fields_view(fields@) =~= seq![
        ("connections"@, JsonView::Array(cs)),
        ("count"@, JsonView::Number(NumberView::PosInt(cs.len()))),
    ]);
    r
}

/// A token of more than two characters, each an ASCII capital letter or
/// `'_'` (such as `TIME_WAIT` or `SYN_SENT`), is a connection state, and
/// the tokens before it of no such shape are none: the first token of that
/// shape on a line becomes the connection's `state`.
pub proof fn law_state_is_first_capital_token(ts: Seq<Seq<char>>, j: int)
    requires
        0 <= j < ts.len(),
        ts[j].len() > 2,
        forall|i: int| 0 <= i < ts[j].len() ==> ('A' <= #[trigger] ts[j][i] && ts[j][i] <= 'Z') || ts[j][i] == '_',
        forall|k: int| 0 <= k < j ==> !(#[trigger] ts[k].len() > 2 && forall|i: int|
            0 <= i < ts[k].len() ==> ('A' <= #[trigger] ts[k][i] && ts[k][i] <= 'Z') || ts[k][i] == '_'),
    ensures
        is_state_spec(ts[j]),
        forall|k: int| 0 <= k < j ==> !is_state_spec(#[trigger] ts[k]),
        first_state(ts) == Some(ts[j]),
        ts.len() >= 4 ==> connection_spec(ts)->Object_0[5] == ("state"@, JsonView::Str(ts[j])),
    decreases j,
{
    if j > 0 {
        law_state_is_first_capital_token(ts.drop_first(), j - 1);
        assert(ts.drop_first()[j - 1] == ts[j]);
        assert(!is_state_spec(ts[0]));
    }
}

/// The source and destination of a connection are those of its first
/// direction: the text after `prefix` (such as `src=`) in the first token
/// that starts with it, whatever later tokens say.
pub proof fn law_first_direction_wins(ts: Seq<Seq<char>>, prefix: Seq<char>, j: int)
    requires
        0 <= j < ts.len(),
        strip_prefix_spec(ts[j], prefix) is Some,
        forall|k: int| 0 <= k < j ==> strip_prefix_spec(#[trigger] ts[k], prefix) is None,
    ensures
        first_text(ts, prefix) == strip_prefix_spec(ts[j], prefix),
    decreases j,
{
    if j > 0 {
        assert forall|k: int| 0 <= k < j - 1 implies strip_prefix_spec(#[trigger] ts.drop_first()[k], prefix) is None by {
            assert(ts.drop_first()[k] == ts[k + 1]);
        }
        law_first_direction_wins(ts.drop_first(), prefix, j - 1);
        assert(ts.drop_first()[j - 1] == ts[j]);
    }
}

/// The byte count of a connection adds up both its directions: the count of
/// a line is that of its first part plus that of the rest.
pub proof fn law_bytes_add_up(a: Seq<Seq<char>>, b: Seq<Seq<char>>)
    ensures
        bytes_sum(a + b) == bytes_sum(a) + bytes_sum(b),
    decreases b.len(),
{
    if b.len() == 0 {
        assert(a + b =~= a);
    } else {
        law_bytes_add_up(a, b.drop_last());
        assert((a + b).drop_last() =~= a + b.drop_last());
        assert((a + b).last() == b.last());
    }
}

} // verus!
