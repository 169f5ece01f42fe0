//! MCP tool names.
//!
//! MCP tools are named `mcp__{server}__{tool}`, for example
//! `mcp__browser__navigate` or `mcp__fs__read_file`.
use vstd::prelude::*;
use vstd::string::StringExecFns;
use vstd::string::StrSliceExecFns;
use crate::text::{starts_with, to_chars};

verus! {

/// The prefix of every MCP tool name.
pub open spec fn mcp_prefix() -> Seq<char> {
    seq!['m', 'c', 'p', '_', '_']
}

/// The separator `__` between the parts of a tool name.
pub open spec fn sep() -> Seq<char> {
    seq!['_', '_']
}

/// Whether `__` occurs in `s` at index `p`.
pub open spec fn sep_at(s: Seq<char>, p: int) -> bool {
    0 <= p && p + 1 < s.len() && s[p] == '_' && s[p + 1] == '_'
}

/// Whether `__` occurs nowhere in `s`.
pub open spec fn no_sep(s: Seq<char>) -> bool {
    forall|p: int| !#[trigger] sep_at(s, p)
}

/// Whether `(server, tool)` are the two parts of the tool name `full`:
/// `full` is `mcp__` + server + `__` + tool, the `__` after the server is the
/// first one after the prefix, and the tool part holds no `__`.
pub open spec fn splits_as(full: Seq<char>, server: Seq<char>, tool: Seq<char>) -> bool {
    &&& full == mcp_prefix() + server + sep() + tool
    &&& no_sep(server.push('_'))
    &&& no_sep(tool)
}

/// The `(server, tool)` parts of `full`, if it is a well-formed MCP tool name.
pub open spec fn tool_name_parts(full: Seq<char>) -> Option<(Seq<char>, Seq<char>)> {
    if exists|ab: (Seq<char>, Seq<char>)| splits_as(full, ab.0, ab.1) {
        Some(choose|ab: (Seq<char>, Seq<char>)| splits_as(full, ab.0, ab.1))
    } else {
        None
    }
}

/// The full tool name for `server` and `tool`.
pub open spec fn tool_name_of(server: Seq<char>, tool: Seq<char>) -> Seq<char> {
    mcp_prefix() + server + sep() + tool
}

/// A tool name splits in at most one way.
pub proof fn lemma_split_unique(full: Seq<char>, a: Seq<char>, b: Seq<char>, c: Seq<char>, d: Seq<char>)
    requires
        splits_as(full, a, b),
        splits_as(full, c, d),
    ensures
        a == c,
        b == d,
{
    let r = full.skip(5);
    assert(r =~= a + sep() + b);
    assert(r =~= c + sep() + d);
    if a.len() < c.len() {
        // `__` at a.len() lies inside c + '_'
        let p = a.len() as int;
        assert(r[p] == '_' && r[p + 1] == '_');
        assert(c.push('_')[p] == r[p]);
        assert(c.push('_')[p + 1] == r[p + 1]);
        assert(sep_at(c.push('_'), p));
    } else if c.len() < a.len() {
        let p = c.len() as int;
        assert(r[p] == '_' && r[p + 1] == '_');
        assert(a.push('_')[p] == r[p]);
        assert(a.push('_')[p + 1] == r[p + 1]);
        assert(sep_at(a.push('_'), p));
    }
    assert(a =~= r.take(a.len() as int));
    assert(c =~= r.take(c.len() as int));
    assert(b =~= r.skip(a.len() as int + 2));
    assert(d =~= r.skip(c.len() as int + 2));
}

/// Splits a full MCP tool name `mcp__{server}__{tool}` into `(server, tool)`.
///
/// Returns `None` when the name lacks the `mcp__` prefix or does not split
/// into exactly two parts at `__`.
pub fn parse_mcp_tool_name(full_name: &str) -> (r: Option<(&str, &str)>)
    ensures
        r is Some <==> tool_name_parts(full_name@) is Some,
        r matches Some((s, t)) ==> tool_name_parts(full_name@) == Some((s@, t@)),
        r matches Some((s, t)) ==> splits_as(full_name@, s@, t@),
{
    let v = to_chars(full_name);
    let prefix = to_chars("mcp__");
    proof {
        reveal_strlit("mcp__");
        assert(prefix@ =~= mcp_prefix());
    }
    if !starts_with(&v, &prefix) {
        proof {
            if exists|ab: (Seq<char>, Seq<char>)| splits_as(full_name@, ab.0, ab.1) {
                let ab = choose|ab: (Seq<char>, Seq<char>)| splits_as(full_name@, ab.0, ab.1);
                let a = ab.0;
                let b = ab.1;
                assert(full_name@.take(5) =~= mcp_prefix());
            }
        }
        return None;
    }
    let n = v.len();
    // first `__` at or after index 5
    let mut p: usize = 5;
    while n - p > 1 && !(v[p] == '_' && v[p + 1] == '_')
        invariant
            5 <= p <= n,
            n == v@.len(),
            v@ == full_name@,
            forall|q: int| 5 <= q < p ==> !sep_at(v@, q),
        decreases n - p,
    {
        p += 1;
    }
    if n - p <= 1 {
        proof {
            if exists|ab: (Seq<char>, Seq<char>)| splits_as(full_name@, ab.0, ab.1) {
                let ab = choose|ab: (Seq<char>, Seq<char>)| splits_as(full_name@, ab.0, ab.1);
                let a = ab.0;
                let b = ab.1;
                let q: int = a.len() as int + 5;
                assert((mcp_prefix() + a + sep() + b)[q] == '_');
                assert((mcp_prefix() + a + sep() + b)[q + 1] == '_');
                assert(v@[q] == '_' && v@[q + 1] == '_');
                assert(sep_at(v@, q));
            }
        }
        return None;
    }
    // no further `__` after the first one
    let mut k: usize = p + 2;
    while n - k > 1
        invariant
            5 <= p,
            p + 2 <= k <= n,
            n == v@.len(),
            v@ == full_name@,
            sep_at(v@, p as int),
            forall|q: int| 5 <= q < p ==> !sep_at(v@, q),
            forall|q: int| p + 2 <= q < k ==> !sep_at(v@, q),
        decreases n - k,
    {
        if v[k] == '_' && v[k + 1] == '_' {
            proof {
                if exists|ab: (Seq<char>, Seq<char>)| splits_as(full_name@, ab.0, ab.1) {
                    let ab = choose|ab: (Seq<char>, Seq<char>)| splits_as(full_name@, ab.0, ab.1);
                    let a = ab.0;
                    let b = ab.1;
                    let q: int = a.len() as int + 5;
                assert((mcp_prefix() + a + sep() + b)[q] == '_');
                assert((mcp_prefix() + a + sep() + b)[q + 1] == '_');
                    assert(v@[q] == '_' && v@[q + 1] == '_');
                    assert(sep_at(v@, q));
                    // q is the first `__` from 5 on, so q == p
                    if q > p {
                        assert((mcp_prefix() + a + sep() + b)[p as int] == a[p - 5]);
                        assert(a.push('_')[p - 5] == '_');
                        if p - 4 < a.len() {
                            assert((mcp_prefix() + a + sep() + b)[p + 1] == a[p - 4]);
                        }
                        assert(a.push('_')[p - 4] == '_');
                        assert(sep_at(a.push('_'), p - 5));
                    }
                    assert(q == p);
                    assert((mcp_prefix() + a + sep() + b)[k as int] == b[k - p - 2]);
                    assert((mcp_prefix() + a + sep() + b)[k + 1] == b[k - p - 1]);
                    assert(sep_at(b, k - p - 2));
                }
            }
            return None;
        }
        k += 1;
    }
    let server = full_name.substring_char(5, p);
    let tool = full_name.substring_char(p + 2, n);
    proof {
        let a = server@;
        let b = tool@;
        assert(full_name@ =~= mcp_prefix() + a + sep() + b);
        assert forall|q: int| !#[trigger] sep_at(a.push('_'), q) by {
            if sep_at(a.push('_'), q) {
                assert(a.push('_')[q] == v@[q + 5]);
                assert(a.push('_')[q + 1] == v@[q + 6]);
                assert(sep_at(v@, q + 5));
            }
        }
        assert forall|q: int| !#[trigger] sep_at(b, q) by {
            if sep_at(b, q) {
                assert(b[q] == v@[q + p + 2]);
                assert(b[q + 1] == v@[q + p + 3]);
                assert(sep_at(v@, q + p + 2));
            }
        }
        let w = (a, b);
        assert(splits_as(full_name@, w.0, w.1));
        let ab = choose|ab: (Seq<char>, Seq<char>)| splits_as(full_name@, ab.0, ab.1);
        assert(splits_as(full_name@, ab.0, ab.1));
        lemma_split_unique(full_name@, a, b, ab.0, ab.1);
    }
    Some((server, tool))
}

/// Builds the full MCP tool name `mcp__{server}__{tool}`.
pub fn build_mcp_tool_name(server_name: &str, tool_name: &str) -> (r: String)
    ensures
        r@ == tool_name_of(server_name@, tool_name@),
{
    let mut r = String::from_str("mcp__");
    r.append(server_name);
    r.append("__");
    r.append(tool_name);
    proof {
        reveal_strlit("mcp__");
        reveal_strlit("__");
        assert(r@ =~= tool_name_of(server_name@, tool_name@));
    }
    r
}

/// Law: a name built from a server and tool part parses back into the same
/// parts, as long as the server part holds no `__` and does not end in `_`,
/// and the tool part holds no `__`.
pub proof fn law_parse_build_roundtrip(server: Seq<char>, tool: Seq<char>)
    requires
        no_sep(server.push('_')),
        no_sep(tool),
    ensures
        tool_name_parts(tool_name_of(server, tool)) == Some((server, tool)),
{
    let full = tool_name_of(server, tool);
    let w = (server, tool);
    assert(splits_as(full, w.0, w.1));
    let ab = choose|ab: (Seq<char>, Seq<char>)| splits_as(full, ab.0, ab.1);
    assert(splits_as(full, ab.0, ab.1));
    lemma_split_unique(full, server, tool, ab.0, ab.1);
}

/// Law: a name that parses is rebuilt exactly from its parts.
pub proof fn law_build_parse_roundtrip(full: Seq<char>)
    requires
        tool_name_parts(full) is Some,
    ensures
        ({
            let parts = tool_name_parts(full).unwrap();
            tool_name_of(parts.0, parts.1) == full
        }),
{
    let ab = choose|ab: (Seq<char>, Seq<char>)| splits_as(full, ab.0, ab.1);
    assert(splits_as(full, ab.0, ab.1));
}

} // verus!
