use vstd::prelude::*;
use vstd::string::*;

verus! {

/// The name of the registry document inside the configuration directory.
pub const CONFIG_FILE_NAME: &'static str = "config.json";

/// One configured submodule.
#[derive(Clone, Debug)]
pub struct SubmoduleConfig {
    /// Identifier, unique within the registry; also the sibling target's name.
    pub name: String,
    /// Location of the submodule's content relative to the monorepo root.
    pub path: String,
    /// Patterns of paths to keep, in order of precedence.
    pub include_rules: Vec<String>,
    /// Patterns of paths to drop, in order of precedence.
    pub exclude_rules: Vec<String>,
}

/// The mathematical content of a `SubmoduleConfig`.
pub struct SubmoduleView {
    pub name: Seq<char>,
    pub path: Seq<char>,
    pub include_rules: Seq<Seq<char>>,
    pub exclude_rules: Seq<Seq<char>>,
}

/// The characters of each string, in order.
pub open spec fn strings_view(v: Seq<String>) -> Seq<Seq<char>> {
    v.map_values(|s: String| s@)
}

impl View for SubmoduleConfig {
    type V = SubmoduleView;

    open spec fn view(&self) -> SubmoduleView {
        SubmoduleView {
            name: self.name@,
            path: self.path@,
            include_rules: strings_view(self.include_rules@),
            exclude_rules: strings_view(self.exclude_rules@),
        }
    }
}

/// The registry: configured submodules in insertion order.
#[derive(Clone, Debug)]
pub struct AppConfig {
    pub submodules: Vec<SubmoduleConfig>,
}

impl View for AppConfig {
    type V = Seq<SubmoduleView>;

    open spec fn view(&self) -> Seq<SubmoduleView> {
        self.submodules@.map_values(|e: SubmoduleConfig| e@)
    }
}

/// Whether some entry of `entries` is called `name`.
pub open spec fn has_name(entries: Seq<SubmoduleView>, name: Seq<char>) -> bool {
    exists|i: int| 0 <= i < entries.len() && #[trigger] entries[i].name == name
}

/// No two entries share a name.
pub open spec fn names_unique(entries: Seq<SubmoduleView>) -> bool {
    forall|i: int, j: int|
        0 <= i < entries.len() && 0 <= j < entries.len() && i != j ==> #[trigger] entries[i].name
            != #[trigger] entries[j].name
}

impl AppConfig {
    /// A registry is well formed when its names are unique.
    pub open spec fn wf(&self) -> bool {
        names_unique(self@)
    }

    /// An empty registry, as used before anything was persisted.
    pub fn new() -> (r: AppConfig)
        ensures
            r@ == Seq::<SubmoduleView>::empty(),
            r.wf(),
    {
        let r = AppConfig { submodules: Vec::new() };
        assert(r@ =~= Seq::<SubmoduleView>::empty());
        r
    }
}

impl Default for AppConfig {
    fn default() -> (r: AppConfig)
        ensures
            r@ == Seq::<SubmoduleView>::empty(),
    {
        AppConfig::new()
    }
}

/// `rel` placed under `base`, in the way a path is pushed onto another:
/// an absolute `rel` stands alone, and a single separator joins the two.
pub open spec fn join_path(base: Seq<char>, rel: Seq<char>) -> Seq<char> {
    if rel.len() > 0 && rel[0] == '/' {
        rel
    } else if base.len() == 0 {
        rel
    } else if base.last() == '/' {
        base + rel
    } else {
        base + seq!['/'] + rel
    }
}

/// Places `rel` under `base` (see `join_path`).
pub fn join(base: &str, rel: &str) -> (r: String)
    ensures
        r@ == join_path(base@, rel@),
{
    let nb = base.unicode_len();
    let nr = rel.unicode_len();
    if nr > 0 && rel.get_char(0) == '/' {
        String::from_str(rel)
    } else if nb == 0 {
        String::from_str(rel)
    } else if base.get_char(nb - 1) == '/' {
        let mut r = String::from_str(base);
        r.append(rel);
        r
    } else {
        let mut r = String::from_str(base);
        r.append("/");
        proof {
            reveal_strlit("/");
        }
        r.append(rel);
        r
    }
}

/// Where the registry document lives inside the configuration directory.
pub fn get_config_path(config_dir: &str) -> (r: String)
    ensures
        r@ == join_path(config_dir@, CONFIG_FILE_NAME@),
{
    join(config_dir, CONFIG_FILE_NAME)
}

} // verus!
