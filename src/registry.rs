use vstd::prelude::*;
use vstd::string::*;
use crate::config::{
    has_name, names_unique, strings_view, AppConfig, SubmoduleConfig, SubmoduleView,
};

verus! {

/// The text left of `s` once leading and trailing whitespace is removed.
pub uninterp spec fn trimmed(s: Seq<char>) -> Seq<char>;

/// Relies on `str::trim`: the result depends on the characters of `s` alone.
#[verifier::external_body]
fn trim_name(s: &str) -> (r: String)
    ensures
        r@ == trimmed(s@),
{
    s.trim().to_string()
}

/// The comma-separated pieces of `s`, in order; there is always at least one.
pub open spec fn split_commas(s: Seq<char>) -> Seq<Seq<char>>
    decreases s.len(),
{
    if s.len() == 0 {
        seq![Seq::<char>::empty()]
    } else {
        let p = split_commas(s.drop_last());
        if s.last() == ',' {
            p.push(Seq::<char>::empty())
        } else {
            p.update(p.len() - 1, p.last().push(s.last()))
        }
    }
}

/// The names that a comma-separated list denotes, each trimmed.
pub open spec fn candidate_names(s: Seq<char>) -> Seq<Seq<char>> {
    split_commas(s).map_values(|p: Seq<char>| trimmed(p))
}

proof fn lemma_split_nonempty(s: Seq<char>)
    ensures
        split_commas(s).len() >= 1,
    decreases s.len(),
{
    if s.len() > 0 {
        lemma_split_nonempty(s.drop_last());
    }
}

/// Splits a comma-separated list of names and trims each piece.
pub fn parse_names(s: &str) -> (r: Vec<String>)
    ensures
        strings_view(r@) == candidate_names(s@),
        r@.len() >= 1,
{
    let n = s.unicode_len();
    let mut done: Vec<String> = Vec::new();
    let mut start: usize = 0;
    let mut i: usize = 0;
    proof {
        assert(s@.subrange(0, 0) =~= Seq::<char>::empty());
    }
    while i < n
        invariant
            n == s@.len(),
            start <= i <= n,
            split_commas(s@.subrange(0, i as int)).len() == done@.len() + 1,
            forall|k: int|
                0 <= k < done@.len() ==> #[trigger] done@[k]@ == trimmed(
                    split_commas(s@.subrange(0, i as int))[k],
                ),
            split_commas(s@.subrange(0, i as int)).last() == s@.subrange(start as int, i as int),
        decreases n - i,
    {
        let c = s.get_char(i);
        let ghost prev = split_commas(s@.subrange(0, i as int));
        proof {
            assert(s@.subrange(0, i + 1).drop_last() =~= s@.subrange(0, i as int));
            assert(s@.subrange(0, i + 1).last() == c);
        }
        if c == ',' {
            let piece = trim_name(s.substring_char(start, i));
            done.push(piece);
            start = i + 1;
            proof {
                assert(s@.subrange(start as int, i + 1) =~= Seq::<char>::empty());
            }
        } else {
            proof {
                assert(s@.subrange(start as int, i + 1) =~= s@.subrange(start as int, i as int).push(c));
            }
        }
        i = i + 1;
    }
    let last = trim_name(s.substring_char(start, n));
    done.push(last);
    proof {
        assert(s@.subrange(0, n as int) =~= s@);
        assert(strings_view(done@) =~= candidate_names(s@));
    }
    done
}

/// The rules a newly registered submodule starts with: keep the library and
/// test trees and the package manifest, drop everything else.
pub open spec fn default_entry(name: Seq<char>) -> SubmoduleView {
    SubmoduleView {
        name: name,
        path: name,
        include_rules: seq!["lib/***"@, "pubspec.yaml"@, "test/***"@],
        exclude_rules: seq!["*"@],
    }
}

/// Registering one name: an existing name leaves the registry as it is.
pub open spec fn add_name(es: Seq<SubmoduleView>, n: Seq<char>) -> Seq<SubmoduleView> {
    if has_name(es, n) {
        es
    } else {
        es.push(default_entry(n))
    }
}

/// Registering names one after the other.
pub open spec fn add_names(es: Seq<SubmoduleView>, ns: Seq<Seq<char>>) -> Seq<SubmoduleView>
    decreases ns.len(),
{
    if ns.len() == 0 {
        es
    } else {
        add_name(add_names(es, ns.drop_last()), ns.last())
    }
}

/// A name that holds nothing but whitespace.
pub open spec fn is_blank(n: Seq<char>) -> bool {
    trimmed(n).len() == 0
}

/// Why a list of names was refused.
#[derive(Debug, Clone, Copy, PartialEq, Eq, Structural)]
pub enum RegistrationError {
    EmptyList,
    BlankName,
}


/// Whether an entry called `name` is already configured.
fn find_name(entries: &Vec<SubmoduleConfig>, name: &String) -> (r: bool)
    ensures
        r == has_name(entries@.map_values(|e: SubmoduleConfig| e@), name@),
{
    let ghost es = entries@.map_values(|e: SubmoduleConfig| e@);
    let mut i: usize = 0;
    while i < entries.len()
        invariant
            i <= entries@.len(),
            es == entries@.map_values(|e: SubmoduleConfig| e@),
            forall|k: int| 0 <= k < i ==> #[trigger] es[k].name != name@,
        decreases entries@.len() - i,
    {
        if entries[i].name == *name {
            assert(es[i as int].name == name@);
            return true;
        }
        i = i + 1;
    }
    false
}

fn default_rules() -> (r: (Vec<String>, Vec<String>))
    ensures
        strings_view(r.0@) == default_entry(Seq::<char>::empty()).include_rules,
        strings_view(r.1@) == default_entry(Seq::<char>::empty()).exclude_rules,
{
    let mut inc: Vec<String> = Vec::new();
    inc.push(String::from_str("lib/***"));
    inc.push(String::from_str("pubspec.yaml"));
    inc.push(String::from_str("test/***"));
    let mut exc: Vec<String> = Vec::new();
    exc.push(String::from_str("*"));
    assert(strings_view(inc@) =~= default_entry(Seq::<char>::empty()).include_rules);
    assert(strings_view(exc@) =~= default_entry(Seq::<char>::empty()).exclude_rules);
    (inc, exc)
}

/// Registers `names` in order. A name that is already configured is left
/// untouched; a new one gets `default_entry`. The list is checked as a whole
/// first: an empty list, or one with a blank name, changes nothing. The result
/// tells, for each name, whether it was added.
pub fn register_submodules(config: &mut AppConfig, names: &Vec<String>) -> (r: Result<
    Vec<bool>,
    RegistrationError,
>)
    requires
        old(config).wf(),
    ensures
        final(config).wf(),
        r == Err::<Vec<bool>, RegistrationError>(RegistrationError::EmptyList) <==> names@.len()
            == 0,
        r == Err::<Vec<bool>, RegistrationError>(RegistrationError::BlankName) <==> (names@.len()
            > 0 && exists|k: int| 0 <= k < names@.len() && is_blank(#[trigger] names@[k]@)),
        r is Err ==> final(config)@ == old(config)@,
        r is Ok ==> {
            let ns = strings_view(names@);
            &&& final(config)@ == add_names(old(config)@, ns)
            &&& r->Ok_0@.len() == names@.len()
            &&& forall|k: int|
                0 <= k < names@.len() ==> #[trigger] r->Ok_0@[k] == !has_name(
                    add_names(old(config)@, ns.take(k)),
                    ns[k],
                )
        },
{
    if names.len() == 0 {
        return Err(RegistrationError::EmptyList);
    }
    let mut j: usize = 0;
    while j < names.len()
        invariant
            j <= names@.len(),
            config@ == old(config)@,
            names_unique(config@),
            forall|k: int| 0 <= k < j ==> !is_blank(#[trigger] names@[k]@),
        decreases names@.len() - j,
    {
        let t = trim_name(names[j].as_str());
        if t.unicode_len() == 0 {
            return Err(RegistrationError::BlankName);
        }
        j = j + 1;
    }
    let ghost ns = strings_view(names@);
    let ghost start = config@;
    let mut added: Vec<bool> = Vec::new();
    let mut i: usize = 0;
    proof {
        assert(ns.take(0) =~= Seq::<Seq<char>>::empty());
    }
    while i < names.len()
        invariant
            i <= names@.len(),
            ns == strings_view(names@),
            names_unique(config@),
            config@ == add_names(start, ns.take(i as int)),
            added@.len() == i,
            forall|k: int|
                0 <= k < i ==> #[trigger] added@[k] == !has_name(add_names(start, ns.take(k)), ns[k]),
        decreases names@.len() - i,
    {
        let name = &names[i];
        let ghost before = config@;
        proof {
            assert(ns.take(i + 1).drop_last() =~= ns.take(i as int));
            assert(ns.take(i + 1).last() == name@);
        }
        let present = find_name(&config.submodules, name);
        if !present {
            let (inc, exc) = default_rules();
            let entry = SubmoduleConfig {
                name: name.clone(),
                path: name.clone(),
                include_rules: inc,
                exclude_rules: exc,
            };
            config.submodules.push(entry);
            proof {
                assert(config@ =~= before.push(default_entry(name@)));
                lemma_add_name_unique(before, name@);
            }
        }
        added.push(!present);
        i = i + 1;
    }
    proof {
        assert(ns.take(names@.len() as int) =~= ns);
    }
    Ok(added)
}

/// Registering a name keeps names unique.
pub proof fn lemma_add_name_unique(es: Seq<SubmoduleView>, n: Seq<char>)
    requires
        names_unique(es),
    ensures
        names_unique(add_name(es, n)),
{
    if !has_name(es, n) {
        let r = es.push(default_entry(n));
        assert forall|i: int, j: int|
            0 <= i < r.len() && 0 <= j < r.len() && i != j implies #[trigger] r[i].name
            != #[trigger] r[j].name by {
            if i < es.len() && j < es.len() {
                assert(r[i] == es[i] && r[j] == es[j]);
            } else if i < es.len() {
                assert(r[i] == es[i]);
            } else {
                assert(r[j] == es[j]);
            }
        }
    }
}


/// Registers the names of a comma-separated list (see `register_submodules`).
/// The list is refused exactly when one of its trimmed pieces is empty.
pub fn register_names(config: &mut AppConfig, names_str: &str) -> (r: Result<
    Vec<bool>,
    RegistrationError,
>)
    requires
        old(config).wf(),
    ensures
        final(config).wf(),
        r is Err <==> exists|k: int|
            0 <= k < candidate_names(names_str@).len() && is_blank(
                #[trigger] candidate_names(names_str@)[k],
            ),
        r is Err ==> r == Err::<Vec<bool>, RegistrationError>(RegistrationError::BlankName)
            && final(config)@ == old(config)@,
        r is Ok ==> final(config)@ == add_names(old(config)@, candidate_names(names_str@)),
{
    let names = parse_names(names_str);
    let r = register_submodules(config, &names);
    proof {
        let cs = candidate_names(names_str@);
        assert(strings_view(names@) == cs);
        match r {
            Err(e) => {
                assert(r == Err::<Vec<bool>, RegistrationError>(e));
                assert(e == RegistrationError::BlankName);
            },
            Ok(_) => {},
        }
        if exists|k: int| 0 <= k < cs.len() && is_blank(#[trigger] cs[k]) {
            let k = choose|k: int| 0 <= k < cs.len() && is_blank(#[trigger] cs[k]);
            assert(names@[k]@ == strings_view(names@)[k]);
        }
        if exists|k: int| 0 <= k < names@.len() && is_blank(#[trigger] names@[k]@) {
            let k = choose|k: int| 0 <= k < names@.len() && is_blank(#[trigger] names@[k]@);
            assert(names@[k]@ == strings_view(names@)[k]);
        }
    }
    r
}

/// Registering a name keeps every name that was there and adds that name.
pub proof fn lemma_add_name_has(es: Seq<SubmoduleView>, n: Seq<char>)
    ensures
        has_name(add_name(es, n), n),
        forall|m: Seq<char>| has_name(es, m) ==> #[trigger] has_name(add_name(es, n), m),
{
    if !has_name(es, n) {
        let r = es.push(default_entry(n));
        assert(r[es.len() as int].name == n);
        assert forall|m: Seq<char>| has_name(es, m) implies #[trigger] has_name(r, m) by {
            let i = choose|i: int| 0 <= i < es.len() && #[trigger] es[i].name == m;
            assert(r[i] == es[i]);
        }
    }
}

/// After registering a list of names, each of them is configured, every
/// name configured before still is, and names are still unique.
pub proof fn lemma_add_names_has(es: Seq<SubmoduleView>, ns: Seq<Seq<char>>)
    requires
        names_unique(es),
    ensures
        names_unique(add_names(es, ns)),
        forall|k: int| 0 <= k < ns.len() ==> has_name(add_names(es, ns), #[trigger] ns[k]),
        forall|m: Seq<char>| has_name(es, m) ==> #[trigger] has_name(add_names(es, ns), m),
    decreases ns.len(),
{
    if ns.len() > 0 {
        let p = ns.drop_last();
        lemma_add_names_has(es, p);
        lemma_add_name_has(add_names(es, p), ns.last());
        lemma_add_name_unique(add_names(es, p), ns.last());
        assert forall|k: int| 0 <= k < ns.len() implies has_name(
            add_names(es, ns),
            #[trigger] ns[k],
        ) by {
            if k < p.len() {
                assert(p[k] == ns[k]);
            }
        }
    }
}

/// Registering names that are all configured already changes nothing.
pub proof fn lemma_add_names_present(es: Seq<SubmoduleView>, ns: Seq<Seq<char>>)
    requires
        forall|k: int| 0 <= k < ns.len() ==> has_name(es, #[trigger] ns[k]),
    ensures
        add_names(es, ns) == es,
    decreases ns.len(),
{
    if ns.len() > 0 {
        let p = ns.drop_last();
        assert forall|k: int| 0 <= k < p.len() implies has_name(es, #[trigger] p[k]) by {
            assert(p[k] == ns[k]);
        }
        lemma_add_names_present(es, p);
        assert(has_name(es, ns[ns.len() - 1]));
    }
}

/// Registration is idempotent: registering the same names a second time
/// leaves the registry as the first registration left it, with exactly one
/// entry for each registered name.
pub proof fn lemma_register_idempotent(es: Seq<SubmoduleView>, ns: Seq<Seq<char>>)
    requires
        names_unique(es),
    ensures
        add_names(add_names(es, ns), ns) == add_names(es, ns),
        names_unique(add_names(es, ns)),
        forall|k: int| 0 <= k < ns.len() ==> has_name(add_names(es, ns), #[trigger] ns[k]),
{
    lemma_add_names_has(es, ns);
    lemma_add_names_present(add_names(es, ns), ns);
}

} // verus!
