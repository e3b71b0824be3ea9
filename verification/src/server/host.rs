//! The machine's short hostname, as shown in shell prompts.
use vstd::prelude::*;
use crate::text::{chars_of, split_char, split_spec, trim, trim_ws, Strip, string_from_chars};
use crate::json::{json_quote, json_object1};

verus! {

broadcast use crate::views::lemma_char_vec_deep_view;

/// The first label of a host name (`pgx1` of `pgx1.tailnet.ts.net`), trimmed.
pub open spec fn first_label(v: Seq<char>) -> Seq<char> {
    trim_ws(split_spec(v, '.')[0])
}

/// The hostname chosen from its sources: the kernel's hostname (trimmed) if it
/// is not empty; else the first label of `HOSTNAME`, else that of `HOST`, the
/// first that is not empty; else the empty string.
pub open spec fn hostname_spec(
    kernel: Option<Seq<char>>,
    hostname_var: Option<Seq<char>>,
    host_var: Option<Seq<char>>,
) -> Seq<char> {
    if kernel is Some && trim_ws(kernel->0).len() > 0 {
        trim_ws(kernel->0)
    } else if hostname_var is Some && first_label(hostname_var->0).len() > 0 {
        first_label(hostname_var->0)
    } else if host_var is Some && first_label(host_var->0).len() > 0 {
        first_label(host_var->0)
    } else {
        Seq::empty()
    }
}

pub open spec fn opt_view(o: Option<String>) -> Option<Seq<char>> {
    match o {
        Some(s) => Some(s@),
        None => None,
    }
}

fn first_label_of(v: &str) -> (r: Vec<char>)
    ensures
        r@ == first_label(v@),
{
    let c = chars_of(v);
    let parts = split_char(c.as_slice(), '.');
    proof {
        crate::text::lemma_split_nonempty(v@, '.');
    }
    assert(parts[0]@ == parts.deep_view()[0]);
    trim(parts[0].as_slice(), Strip::Whitespace)
}

/// Choose the short hostname from `/proc/sys/kernel/hostname` and the
/// `HOSTNAME` and `HOST` variables (each `None` when unreadable or unset).
pub fn choose_hostname(
    kernel: Option<String>,
    hostname_var: Option<String>,
    host_var: Option<String>,
) -> (r: String)
    ensures
        r@ == hostname_spec(opt_view(kernel), opt_view(hostname_var), opt_view(host_var)),
{
    if let Some(raw) = &kernel {
        let c = chars_of(raw.as_str());
        let name = trim(c.as_slice(), Strip::Whitespace);
        if name.len() > 0 {
            return string_from_chars(name.as_slice());
        }
    }
    if let Some(value) = &hostname_var {
        let short = first_label_of(value.as_str());
        if short.len() > 0 {
            return string_from_chars(short.as_slice());
        }
    }
    if let Some(value) = &host_var {
        let short = first_label_of(value.as_str());
        if short.len() > 0 {
            return string_from_chars(short.as_slice());
        }
    }
    String::new()
}

/// JSON body for `GET /api/host`: `{"hostname":"<name>"}`, always a string.
pub fn hostname_response(hostname: &str) -> (r: String)
    ensures
        r@ == json_object1("hostname"@, hostname@),
{
    let mut r = String::from_str("{");
    let k = json_quote("hostname");
    r.append(k.as_str());
    r.append(":");
    let v = json_quote(hostname);
    r.append(v.as_str());
    r.append("}");
    proof {
        reveal_strlit("{");
        reveal_strlit(":");
        reveal_strlit("}");
        assert(r@ =~= json_object1("hostname"@, hostname@));
    }
    r
}

} // verus!
