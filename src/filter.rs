use vstd::prelude::*;
use vstd::string::*;
use crate::config::{strings_view, SubmoduleConfig, SubmoduleView};

verus! {

/// Each pattern of `ps`, in order, behind `prefix`.
pub open spec fn prefixed(prefix: Seq<char>, ps: Seq<Seq<char>>) -> Seq<Seq<char>> {
    ps.map_values(|p: Seq<char>| prefix + p)
}

/// The filter arguments of an entry: its include rules in configured order,
/// then its exclude rules in configured order.
pub open spec fn filter_args(e: SubmoduleView) -> Seq<Seq<char>> {
    prefixed("--include="@, e.include_rules) + prefixed("--exclude="@, e.exclude_rules)
}

/// The fixed options of every transfer: archive mode, deletion of what the
/// source lacks, kept modification times, and no permissions, owner or group.
pub open spec fn transfer_flags() -> Seq<Seq<char>> {
    seq!["-a"@, "--delete"@, "--times"@, "--no-perms"@, "--no-owner"@, "--no-group"@]
}

/// The full argument list of one transfer from `source` into `target`; the
/// source carries a trailing separator so that its contents are copied.
pub open spec fn transfer_args(e: SubmoduleView, source: Seq<char>, target: Seq<char>) -> Seq<
    Seq<char>,
> {
    transfer_flags() + filter_args(e) + seq![source + "/"@, target]
}

/// Appends each pattern of `ps` behind `prefix` to `out`.
fn push_prefixed(out: &mut Vec<String>, prefix: &str, ps: &Vec<String>)
    ensures
        strings_view(final(out)@) == strings_view(old(out)@) + prefixed(prefix@, strings_view(ps@)),
{
    let ghost start = strings_view(out@);
    let mut i: usize = 0;
    while i < ps.len()
        invariant
            i <= ps@.len(),
            strings_view(out@) == start + prefixed(prefix@, strings_view(ps@)).take(i as int),
        decreases ps@.len() - i,
    {
        let mut a = String::from_str(prefix);
        a.append(ps[i].as_str());
        let ghost before = strings_view(out@);
        out.push(a);
        proof {
            assert(strings_view(out@) =~= before.push(a@));
            assert(prefixed(prefix@, strings_view(ps@)).take(i + 1) =~= prefixed(
                prefix@,
                strings_view(ps@),
            ).take(i as int).push(prefix@ + ps@[i as int]@));
        }
        i = i + 1;
    }
    proof {
        assert(prefixed(prefix@, strings_view(ps@)).take(ps@.len() as int) =~= prefixed(
            prefix@,
            strings_view(ps@),
        ));
    }
}

/// The filter arguments handed to the transfer tool for `entry`. The tool
/// applies the first rule that matches a path, so the rules keep their order
/// exactly: nothing is reordered, merged or dropped.
pub fn build_filter_args(entry: &SubmoduleConfig) -> (r: Vec<String>)
    ensures
        strings_view(r@) == filter_args(entry@),
{
    let mut out: Vec<String> = Vec::new();
    proof {
        assert(strings_view(out@) =~= Seq::<Seq<char>>::empty());
    }
    push_prefixed(&mut out, "--include=", &entry.include_rules);
    push_prefixed(&mut out, "--exclude=", &entry.exclude_rules);
    proof {
        assert(strings_view(out@) =~= filter_args(entry@));
    }
    out
}

/// Appends one string to a list of strings.
fn push_str(out: &mut Vec<String>, s: &str)
    ensures
        strings_view(final(out)@) == strings_view(old(out)@).push(s@),
{
    let ghost before = strings_view(out@);
    out.push(String::from_str(s));
    proof {
        assert(strings_view(out@) =~= before.push(s@));
    }
}

/// The full argument list of one transfer of `entry` from `source` into
/// `target` (see `transfer_args`).
pub fn build_transfer_args(entry: &SubmoduleConfig, source: &str, target: &str) -> (r: Vec<
    String,
>)
    ensures
        strings_view(r@) == transfer_args(entry@, source@, target@),
{
    let mut out: Vec<String> = Vec::new();
    proof {
        assert(strings_view(out@) =~= Seq::<Seq<char>>::empty());
    }
    push_str(&mut out, "-a");
    push_str(&mut out, "--delete");
    push_str(&mut out, "--times");
    push_str(&mut out, "--no-perms");
    push_str(&mut out, "--no-owner");
    push_str(&mut out, "--no-group");
    proof {
        assert(strings_view(out@) =~= transfer_flags());
    }
    push_prefixed(&mut out, "--include=", &entry.include_rules);
    push_prefixed(&mut out, "--exclude=", &entry.exclude_rules);
    let mut src = String::from_str(source);
    src.append("/");
    let ghost before = strings_view(out@);
    out.push(src);
    proof {
        assert(strings_view(out@) =~= before.push(source@ + "/"@));
        assert(before =~= transfer_flags() + filter_args(entry@));
    }
    push_str(&mut out, target);
    proof {
        assert(strings_view(out@) =~= transfer_args(entry@, source@, target@));
    }
    out
}

/// The filter arguments list every include rule, in configured order, before
/// every exclude rule, in configured order, one argument per rule.
pub proof fn lemma_filter_order(e: SubmoduleView)
    ensures
        filter_args(e).len() == e.include_rules.len() + e.exclude_rules.len(),
        forall|k: int|
            0 <= k < e.include_rules.len() ==> #[trigger] filter_args(e)[k] == "--include="@
                + e.include_rules[k],
        forall|k: int|
            0 <= k < e.exclude_rules.len() ==> #[trigger] filter_args(e)[e.include_rules.len()
                + k] == "--exclude="@ + e.exclude_rules[k],
{
}

} // verus!
