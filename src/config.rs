//! The persisted configuration: its defaults, the per-addon override table,
//! and the merge of that table into the catalog.
use vstd::prelude::*;
use vstd::string::*;
use crate::types::{
    opt_str_view, override_entries, keys_unique, AddonDefinition, AddonOverride, AppConfig,
    DefinitionView, OverrideView, UpdateMode,
};
use crate::catalog::{catalog, defs_view, get_addon_definitions};

verus! {

/// Launch at login unless the stored configuration says otherwise.
pub fn default_launch_on_startup() -> (r: bool)
    ensures
        r,
{
    true
}

/// Start minimised unless the stored configuration says otherwise.
pub fn default_minimize_on_startup() -> (r: bool)
    ensures
        r,
{
    true
}

/// The language of a stored configuration that names none: empty, which lets
/// the interface follow the system language.
pub fn default_language() -> (r: String)
    ensures
        r@ == Seq::<char>::empty(),
{
    String::new()
}

/// The override stored for `name`: the first entry with that local name.
pub open spec fn lookup(s: Seq<(Seq<char>, OverrideView)>, name: Seq<char>) -> Option<OverrideView>
    decreases s.len(),
{
    if s.len() == 0 {
        None
    } else if s[0].0 == name {
        Some(s[0].1)
    } else {
        lookup(s.drop_first(), name)
    }
}

/// With unique names, the lookup finds exactly the entry of that name.
pub proof fn lemma_lookup_at(s: Seq<(Seq<char>, OverrideView)>, name: Seq<char>)
    requires
        keys_unique(s),
    ensures
        forall|i: int| 0 <= i < s.len() && s[i].0 == name ==> lookup(s, name) == Some(s[i].1),
        (forall|i: int| 0 <= i < s.len() ==> s[i].0 != name) ==> lookup(s, name).is_none(),
    decreases s.len(),
{
    if s.len() > 0 {
        let t = s.drop_first();
        assert(keys_unique(t)) by {
            assert forall|i: int, j: int| 0 <= i < t.len() && 0 <= j < t.len() && i != j implies t[i].0 != t[j].0 by {
                assert(t[i] == s[i + 1] && t[j] == s[j + 1]);
            }
        }
        lemma_lookup_at(t, name);
        assert forall|i: int| 0 <= i < s.len() && s[i].0 == name implies lookup(s, name) == Some(s[i].1) by {
            if i > 0 {
                assert(s[0].0 != name);
                assert(t[i - 1] == s[i]);
            }
        }
        if forall|i: int| 0 <= i < s.len() ==> s[i].0 != name {
            assert forall|i: int| 0 <= i < t.len() implies t[i].0 != name by {
                assert(t[i] == s[i + 1]);
            }
            assert(s[0].0 != name);
        }
    }
}

/// The definition that results from applying `ov`, when present, to `d`:
/// each override field replaces the catalog's field where it is set.
pub open spec fn merged(d: DefinitionView, ov: Option<OverrideView>) -> DefinitionView {
    match ov {
        None => d,
        Some(o) => DefinitionView {
            update_mode: match o.update_mode {
                Some(m) => m,
                None => d.update_mode,
            },
            branch: match o.branch {
                Some(b) => Some(b),
                None => d.branch,
            },
            ..d
        },
    }
}

/// The effective catalog under the override table `ovs`.
pub open spec fn effective_catalog(
    c: Seq<DefinitionView>,
    ovs: Seq<(Seq<char>, OverrideView)>,
) -> Seq<DefinitionView> {
    c.map_values(|d: DefinitionView| merged(d, lookup(ovs, d.local_name)))
}

/// Override merging treats the two fields apart: the strategy of the result
/// depends only on the stored strategy, the branch only on the stored branch,
/// and a field left unset keeps the catalog's value.
pub proof fn lemma_override_fields_independent(d: DefinitionView, o1: OverrideView, o2: OverrideView)
    ensures
        o1.update_mode.is_none() ==> merged(d, Some(o1)).update_mode == d.update_mode,
        o1.branch.is_none() ==> merged(d, Some(o1)).branch == d.branch,
        o1.update_mode == o2.update_mode ==> merged(d, Some(o1)).update_mode == merged(d, Some(o2)).update_mode,
        o1.branch == o2.branch ==> merged(d, Some(o1)).branch == merged(d, Some(o2)).branch,
        merged(d, Some(o1)).local_name == d.local_name,
        merged(d, Some(o1)).github_owner == d.github_owner,
        merged(d, Some(o1)).github_repo == d.github_repo,
{
}

fn copy_opt_string(o: &Option<String>) -> (r: Option<String>)
    ensures
        opt_str_view(r) == opt_str_view(*o),
{
    match o {
        Some(s) => Some(s.clone()),
        None => None,
    }
}

fn copy_override(o: &AddonOverride) -> (r: AddonOverride)
    ensures
        r@ == o@,
{
    AddonOverride { update_mode: o.update_mode, branch: copy_opt_string(&o.branch) }
}

/// A copy of `d`.
pub fn copy_definition(d: &AddonDefinition) -> (r: AddonDefinition)
    ensures
        r@ == d@,
{
    AddonDefinition {
        local_name: d.local_name.clone(),
        nice_name: d.nice_name.clone(),
        github_owner: d.github_owner.clone(),
        github_repo: d.github_repo.clone(),
        description: d.description.clone(),
        update_mode: d.update_mode,
        branch: copy_opt_string(&d.branch),
    }
}

impl AppConfig {
    /// The configuration used when none is stored: launch and start minimised,
    /// English, no override.
    pub fn initial() -> (r: AppConfig)
        ensures
            r.wf(),
            r.wow_path.is_none(),
            r.launch_on_startup,
            r.minimize_on_startup,
            r.language@ == "en"@,
            r.overrides().len() == 0,
    {
        AppConfig {
            wow_path: None,
            launch_on_startup: true,
            minimize_on_startup: true,
            language: String::from_str("en"),
            addon_overrides: Vec::new(),
        }
    }

    /// The override stored for `name`, if any.
    pub fn override_for(&self, name: &String) -> (r: Option<AddonOverride>)
        ensures
            match r {
                Some(o) => lookup(self.overrides(), name@) == Some(o@),
                None => lookup(self.overrides(), name@).is_none(),
            },
    {
        let n = self.addon_overrides.len();
        let mut i: usize = 0;
        assert(self.overrides().skip(0) =~= self.overrides());
        while i < n
            invariant
                n == self.addon_overrides@.len(),
                i <= n,
                lookup(self.overrides(), name@) == lookup(self.overrides().skip(i as int), name@),
            decreases n - i,
        {
            let ghost t = self.overrides().skip(i as int);
            assert(t[0] == self.overrides()[i as int]);
            assert(t.drop_first() =~= self.overrides().skip(i + 1));
            if self.addon_overrides[i].0 == *name {
                return Some(copy_override(&self.addon_overrides[i].1));
            }
            i = i + 1;
        }
        assert(self.overrides().skip(i as int).len() == 0);
        None
    }

    /// Stores `{update_mode, branch}` as the override of `name`, replacing any
    /// earlier one; the other entries are kept.
    pub fn set_override(&mut self, name: String, update_mode: UpdateMode, branch: Option<String>)
        requires
            old(self).wf(),
        ensures
            final(self).wf(),
            lookup(final(self).overrides(), name@) == Some(
                OverrideView { update_mode: Some(update_mode), branch: opt_str_view(branch) },
            ),
            forall|k: Seq<char>| k != name@ ==> lookup(final(self).overrides(), k) == lookup(old(self).overrides(), k),
            final(self).wow_path == old(self).wow_path,
            final(self).launch_on_startup == old(self).launch_on_startup,
            final(self).minimize_on_startup == old(self).minimize_on_startup,
            final(self).language == old(self).language,
    {
        let ghost before = self.overrides();
        let entry = AddonOverride { update_mode: Some(update_mode), branch };
        let ghost ev = entry@;
        let ghost nv = name@;
        let ghost orig = *self;
        let n = self.addon_overrides.len();
        let mut i: usize = 0;
        while i < n
            invariant
                n == self.addon_overrides@.len(),
                i <= n,
                *self == orig,
                orig == *old(self),
                before == old(self).overrides(),
                nv == name@,
                ev == entry@,
                ev == (OverrideView { update_mode: Some(update_mode), branch: opt_str_view(branch) }),
                keys_unique(before),
                forall|j: int| 0 <= j < i ==> before[j].0 != name@,
            decreases n - i,
        {
            if self.addon_overrides[i].0 == name {
                self.addon_overrides.set(i, (name, entry));
                proof {
                    let after = self.overrides();
                    assert(after =~= before.update(i as int, (nv, ev)));
                    assert(keys_unique(after)) by {
                        assert forall|a: int, b: int| 0 <= a < after.len() && 0 <= b < after.len() && a != b implies after[a].0 != after[b].0 by {
                            assert(after[a].0 == before[a].0 && after[b].0 == before[b].0);
                        }
                    }
                    lemma_lookup_at(after, nv);
                    assert(after[i as int] == (nv, ev));
                    assert forall|k: Seq<char>| k != nv implies lookup(after, k) == lookup(before, k) by {
                        lemma_lookup_at(after, k);
                        lemma_lookup_at(before, k);
                        assert forall|j: int| 0 <= j < after.len() implies (after[j].0 == k <==> before[j].0 == k) && (after[j].0 == k ==> after[j] == before[j]) by {
                            if j != i {
                                assert(after[j] == before[j]);
                            }
                        }
                        if exists|j: int| 0 <= j < before.len() && before[j].0 == k {
                            let j = choose|j: int| 0 <= j < before.len() && before[j].0 == k;
                            assert(after[j] == before[j]);
                        }
                    }
                }
                return;
            }
            i = i + 1;
        }
        self.addon_overrides.push((name, entry));
        proof {
            let after = self.overrides();
            assert(after =~= before.push((nv, ev)));
            assert(keys_unique(after)) by {
                assert forall|a: int, b: int| 0 <= a < after.len() && 0 <= b < after.len() && a != b implies after[a].0 != after[b].0 by {
                    if a < before.len() && b < before.len() {
                        assert(after[a] == before[a] && after[b] == before[b]);
                    } else if a < before.len() {
                        assert(after[a] == before[a]);
                    } else {
                        assert(after[b] == before[b]);
                    }
                }
            }
            lemma_lookup_at(after, nv);
            assert(after[before.len() as int] == (nv, ev));
            assert forall|k: Seq<char>| k != nv implies lookup(after, k) == lookup(before, k) by {
                lemma_lookup_at(after, k);
                lemma_lookup_at(before, k);
                if exists|j: int| 0 <= j < before.len() && before[j].0 == k {
                    let j = choose|j: int| 0 <= j < before.len() && before[j].0 == k;
                    assert(after[j] == before[j]);
                } else {
                    assert forall|j: int| 0 <= j < after.len() implies after[j].0 != k by {
                        if j < before.len() {
                            assert(after[j] == before[j]);
                        }
                    }
                }
            }
        }
    }
}

/// `d` with the fields that `ov` sets replaced.
pub fn apply_override(d: &AddonDefinition, ov: &Option<AddonOverride>) -> (r: AddonDefinition)
    ensures
        r@ == merged(d@, match ov {
            Some(o) => Some(o@),
            None => None,
        }),
{
    let mut r = copy_definition(d);
    if let Some(o) = ov {
        if let Some(m) = o.update_mode {
            r.update_mode = m;
        }
        if let Some(b) = &o.branch {
            r.branch = Some(b.clone());
        }
    }
    r
}

/// The catalog with the overrides of `config` applied; without a readable
/// configuration, the catalog as built.
pub fn get_addon_list(config: &Option<AppConfig>) -> (r: Vec<AddonDefinition>)
    ensures
        defs_view(r@) == match config {
            Some(cfg) => effective_catalog(catalog(), cfg.overrides()),
            None => catalog(),
        },
{
    let defs = get_addon_definitions();
    let ghost c = defs_view(defs@);
    let mut out: Vec<AddonDefinition> = Vec::new();
    let n = defs.len();
    let mut i: usize = 0;
    while i < n
        invariant
            n == defs@.len(),
            c == defs_view(defs@),
            c == catalog(),
            i <= n,
            out@.len() == i,
            forall|j: int| 0 <= j < i ==> out@[j]@ == match config {
                Some(cfg) => merged(c[j], lookup(cfg.overrides(), c[j].local_name)),
                None => c[j],
            },
        decreases n - i,
    {
        let d = &defs[i];
        let e = match config {
            Some(cfg) => {
                let ov = cfg.override_for(&d.local_name);
                apply_override(d, &ov)
            },
            None => copy_definition(d),
        };
        out.push(e);
        i = i + 1;
    }
    let ghost target = match config {
        Some(cfg) => effective_catalog(c, cfg.overrides()),
        None => c,
    };
    assert(defs_view(out@) =~= target);
    out
}

} // verus!
