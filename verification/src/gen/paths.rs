//! Crate paths used by generated code: the core profile (bare crate names,
//! resolved from the deriving crate's own dependencies) or the facade profile
//! (every path through the `esp-wifi-caddy` facade, which re-exports them).
use vstd::prelude::*;
use crate::strs::str_eq;

verus! {

/// Crate paths used by generated code, as path text without spaces.
pub struct CratePaths {
    /// Path to the core crate root: `wifi_caddy` or `::esp_wifi_caddy::wifi_caddy`.
    pub wifi_caddy: String,
    /// Path to `serde`, used for the generated per-page DTO derives.
    pub serde: String,
    /// Path to `serde_json_core`, used by the `ConfigApi` impl.
    pub serde_json_core: String,
    /// Path to `embassy_sync`, used by the notify channel types.
    pub embassy_sync: String,
    /// Path to `static_cell`, used by the notify channel static.
    pub static_cell: String,
    /// `#[serde(crate="…")]` container attribute for generated DTOs; empty in
    /// the core profile.
    pub serde_crate_attr: String,
}

/// How the deriving crate's manifest names a package.
pub enum FoundCrate {
    /// A dependency under this (Rust) name.
    Name(String),
    /// The deriving crate is that package.
    Itself,
    /// Not a dependency.
    Missing,
}

/// The argument of one `#[config_crate(…)]` attribute.
pub enum CrateAttrArg {
    /// A path, as text without spaces, with its number of segments.
    Path(String, usize),
    /// A string literal.
    Lit(String),
    /// Neither: the attribute is passed over.
    Other,
}

/// The core profile's paths.
pub open spec fn core_spec(p: CratePaths) -> bool {
    &&& p.wifi_caddy@ == "wifi_caddy"@
    &&& p.serde@ == "serde"@
    &&& p.serde_json_core@ == "serde_json_core"@
    &&& p.embassy_sync@ == "embassy_sync"@
    &&& p.static_cell@ == "static_cell"@
    &&& p.serde_crate_attr@ == Seq::<char>::empty()
}

/// The core profile with the core crate reached through `root`.
pub open spec fn core_rooted_spec(p: CratePaths, root: Seq<char>) -> bool {
    &&& p.wifi_caddy@ == root
    &&& p.serde@ == "serde"@
    &&& p.serde_json_core@ == "serde_json_core"@
    &&& p.embassy_sync@ == "embassy_sync"@
    &&& p.static_cell@ == "static_cell"@
    &&& p.serde_crate_attr@ == Seq::<char>::empty()
}

/// The facade profile rooted at `root`.
pub open spec fn facade_spec(p: CratePaths, root: Seq<char>) -> bool {
    &&& p.wifi_caddy@ == root + "::wifi_caddy"@
    &&& p.serde@ == root + "::serde"@
    &&& p.serde_json_core@ == root + "::serde_json_core"@
    &&& p.embassy_sync@ == root + "::embassy_sync"@
    &&& p.static_cell@ == root + "::static_cell"@
    &&& p.serde_crate_attr@ == "#[serde(crate=\""@ + root + "::serde\")]"@
}

fn joined(a: &str, b: &str) -> (r: String)
    ensures
        r@ == a@ + b@,
{
    let mut s = a.to_owned();
    s.append(b);
    s
}

impl CratePaths {
    /// Core profile: bare crate names, resolved from the user's own dependencies.
    pub fn core_profile() -> (r: Self)
        ensures
            core_spec(r),
    {
        proof {
            reveal_strlit("");
        }
        CratePaths {
            wifi_caddy: "wifi_caddy".to_owned(),
            serde: "serde".to_owned(),
            serde_json_core: "serde_json_core".to_owned(),
            embassy_sync: "embassy_sync".to_owned(),
            static_cell: "static_cell".to_owned(),
            serde_crate_attr: String::new(),
        }
    }

    /// Core profile with the core crate reached through an explicit root
    /// (a renamed dependency, or `crate` inside `wifi-caddy` itself).
    pub fn core_rooted(root: &str) -> (r: Self)
        ensures
            core_rooted_spec(r, root@),
    {
        let mut p = CratePaths::core_profile();
        p.wifi_caddy = root.to_owned();
        p
    }

    /// Facade profile: every path goes through `root`.
    pub fn facade(root: &str) -> (r: Self)
        ensures
            facade_spec(r, root@),
    {
        let mut attr = "#[serde(crate=\"".to_owned();
        attr.append(root);
        attr.append("::serde\")]");
        CratePaths {
            wifi_caddy: joined(root, "::wifi_caddy"),
            serde: joined(root, "::serde"),
            serde_json_core: joined(root, "::serde_json_core"),
            embassy_sync: joined(root, "::embassy_sync"),
            static_cell: joined(root, "::static_cell"),
            serde_crate_attr: attr,
        }
    }
}

/// The profile chosen by the first `#[config_crate(…)]` whose argument is a
/// path or a string literal: `core` (and `wifi_caddy` as a path) select the
/// core profile; another one-segment path `x` the facade at `::x`; any other
/// path or string the facade at that path.
pub open spec fn override_spec(args: Seq<CrateAttrArg>, p: CratePaths) -> bool
    decreases args.len(),
{
    if args.len() == 0 {
        false
    } else {
        match args[0] {
            CrateAttrArg::Path(name, segs) => if name@ == "core"@ || name@ == "wifi_caddy"@ {
                core_spec(p)
            } else if segs == 1 {
                facade_spec(p, "::"@ + name@)
            } else {
                facade_spec(p, name@)
            },
            CrateAttrArg::Lit(s) => if s@ == "core"@ {
                core_spec(p)
            } else {
                facade_spec(p, s@)
            },
            CrateAttrArg::Other => override_spec(args.skip(1), p),
        }
    }
}

/// Whether some `#[config_crate(…)]` argument is a path or a string literal.
pub open spec fn has_override(args: Seq<CrateAttrArg>) -> bool {
    exists|i: int| 0 <= i < args.len() && !(args[i] is Other)
}

/// Reads the `#[config_crate(…)]` override, if any.
pub fn parse_config_crate_attr(args: &Vec<CrateAttrArg>) -> (r: Option<CratePaths>)
    ensures
        match r {
            Some(p) => override_spec(args@, p) && has_override(args@),
            None => !has_override(args@),
        },
{
    let mut i: usize = 0;
    proof {
        assert(args@.skip(0) =~= args@);
    }
    while i < args.len()
        invariant
            i <= args.len(),
            forall|j: int| 0 <= j < i ==> args@[j] is Other,
            forall|p: CratePaths| #[trigger] override_spec(args@, p) == override_spec(args@.skip(i as int), p),
        decreases args.len() - i,
    {
        proof {
            assert(args@.skip(i as int)[0] == args@[i as int]);
            assert(args@.skip(i as int).skip(1) =~= args@.skip(i + 1));
        }
        proof {
            if !(args@[i as int] is Other) {
                assert(has_override(args@));
            }
        }
        match &args[i] {
            CrateAttrArg::Path(name, segs) => {
                if str_eq(name.as_str(), "core") || str_eq(name.as_str(), "wifi_caddy") {
                    return Some(CratePaths::core_profile());
                } else if *segs == 1 {
                    let root = joined("::", name.as_str());
                    return Some(CratePaths::facade(root.as_str()));
                } else {
                    return Some(CratePaths::facade(name.as_str()));
                }
            },
            CrateAttrArg::Lit(s) => {
                if str_eq(s.as_str(), "core") {
                    return Some(CratePaths::core_profile());
                } else {
                    return Some(CratePaths::facade(s.as_str()));
                }
            },
            CrateAttrArg::Other => {},
        }
        i = i + 1;
    }
    None
}

/// The profile for a config struct: the `#[config_crate(…)]` override wins;
/// else a `wifi-caddy` dependency selects the core profile (rooted at its
/// name when renamed, at `crate` inside it), else an `esp-wifi-caddy`
/// dependency the facade profile, else the core profile.
pub open spec fn resolve_spec(args: Seq<CrateAttrArg>, core_pkg: FoundCrate, facade_pkg: FoundCrate, p: CratePaths) -> bool {
    if has_override(args) {
        override_spec(args, p)
    } else {
        match core_pkg {
            FoundCrate::Name(n) => if n@ == "wifi_caddy"@ {
                core_spec(p)
            } else {
                core_rooted_spec(p, "::"@ + n@)
            },
            FoundCrate::Itself => core_rooted_spec(p, "crate"@),
            FoundCrate::Missing => match facade_pkg {
                FoundCrate::Name(n) => facade_spec(p, "::"@ + n@),
                FoundCrate::Itself => facade_spec(p, "crate"@),
                FoundCrate::Missing => core_spec(p),
            },
        }
    }
}

impl CratePaths {
    /// Resolves the profile from the `#[config_crate(…)]` arguments and how the
    /// deriving crate's manifest names `wifi-caddy` and `esp-wifi-caddy`.
    pub fn resolve(args: &Vec<CrateAttrArg>, core_pkg: &FoundCrate, facade_pkg: &FoundCrate) -> (r: Self)
        ensures
            resolve_spec(args@, *core_pkg, *facade_pkg, r),
    {
        if let Some(p) = parse_config_crate_attr(args) {
            return p;
        }
        match core_pkg {
            FoundCrate::Name(n) => {
                if str_eq(n.as_str(), "wifi_caddy") {
                    CratePaths::core_profile()
                } else {
                    let root = joined("::", n.as_str());
                    CratePaths::core_rooted(root.as_str())
                }
            },
            FoundCrate::Itself => CratePaths::core_rooted("crate"),
            FoundCrate::Missing => match facade_pkg {
                FoundCrate::Name(n) => {
                    let root = joined("::", n.as_str());
                    CratePaths::facade(root.as_str())
                },
                FoundCrate::Itself => CratePaths::facade("crate"),
                FoundCrate::Missing => CratePaths::core_profile(),
            },
        }
    }
}

} // verus!
