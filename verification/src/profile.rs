//! Profile resolution: which presets a shader can step through, which one
//! is active when a shader is loaded, and stepping from one to the next.

use vstd::prelude::*;
use vstd::string::*;
use crate::names::NameMap;
use crate::params::{ParamsFile, ProfilePreset};
use crate::text::{
    lemma_lex_asymmetric, lemma_lex_total, lemma_lex_transitive, lex_lt, spec_ascending, spec_sorted,
    str_eq, str_lt, views,
};

verus! {

/// Whether the shader has presets of its own: a scope that holds at least
/// one. A scope without a preset counts as no scope.
pub open spec fn spec_has_own_scope(pf: ParamsFile, shader: Seq<char>) -> bool {
    pf.shader_profiles@.contains_key(shader) && exists|k: Seq<char>|
        pf.shader_profiles@[shader]@.contains_key(k)
}

/// The names a shader steps through: those of its own scope if it has
/// presets of its own, else the global ones.
pub open spec fn spec_profile_scope(pf: ParamsFile, shader: Seq<char>) -> Set<Seq<char>> {
    if spec_has_own_scope(pf, shader) {
        pf.shader_profiles@[shader]@.dom()
    } else {
        pf.profiles@.dom()
    }
}

/// `n` is the first of the names in sorted order.
pub open spec fn is_first_name(names: Set<Seq<char>>, n: Seq<char>) -> bool {
    names.contains(n) && forall|k: Seq<char>| names.contains(k) && k != n ==> lex_lt(n, k)
}

/// `r` is the preset a scope offers when none is selected: `default` if the
/// scope has one, else its first name in sorted order, and none if the
/// scope is empty.
pub open spec fn spec_default_or_first(names: Set<Seq<char>>, r: Option<Seq<char>>) -> bool {
    if names.contains("default"@) {
        r == Some("default"@)
    } else if forall|k: Seq<char>| !names.contains(k) {
        r is None
    } else {
        r is Some && is_first_name(names, r->0)
    }
}

/// `r` is the profile that is active when `shader` is loaded. In order: the
/// shader's own recorded selection; what the shader's scope offers, if the
/// shader has presets of its own; the global selection; what the global
/// scope offers.
pub open spec fn spec_pick_active(pf: ParamsFile, shader: Seq<char>, r: Option<Seq<char>>) -> bool {
    if pf.active_shader_profiles@.contains_key(shader) {
        r == Some(pf.active_shader_profiles@[shader]@)
    } else if spec_has_own_scope(pf, shader) {
        spec_default_or_first(pf.shader_profiles@[shader]@.dom(), r)
    } else if pf.active_profile is Some {
        r == Some(pf.active_profile->0@)
    } else {
        spec_default_or_first(pf.profiles@.dom(), r)
    }
}

/// A set of names has at most one first name.
pub proof fn lemma_first_name_unique(names: Set<Seq<char>>, a: Seq<char>, b: Seq<char>)
    requires
        is_first_name(names, a),
        is_first_name(names, b),
    ensures
        a == b,
{
    if a != b {
        lemma_lex_asymmetric(a, b);
    }
}

/// What a scope offers has one answer only.
pub proof fn lemma_pick_active_unique(
    pf: ParamsFile,
    shader: Seq<char>,
    a: Option<Seq<char>>,
    b: Option<Seq<char>>,
)
    requires
        spec_pick_active(pf, shader, a),
        spec_pick_active(pf, shader, b),
    ensures
        a == b,
{
    if a is Some && b is Some && a->0 != b->0 {
        if is_first_name(pf.profiles@.dom(), a->0) && is_first_name(pf.profiles@.dom(), b->0) {
            lemma_first_name_unique(pf.profiles@.dom(), a->0, b->0);
        }
        if spec_has_own_scope(pf, shader) {
            let d = pf.shader_profiles@[shader]@.dom();
            if is_first_name(d, a->0) && is_first_name(d, b->0) {
                lemma_first_name_unique(d, a->0, b->0);
            }
        }
    }
}

/// Where nothing is recorded as selected, for the shader or for all, the
/// profile that is active is one of the names that the shader steps
/// through, and there is one whenever there is such a name. A shader whose
/// scope holds no preset is served from the global names like a shader
/// without a scope.
pub proof fn lemma_pick_is_offered(pf: ParamsFile, shader: Seq<char>, r: Option<Seq<char>>)
    requires
        spec_pick_active(pf, shader, r),
        !pf.active_shader_profiles@.contains_key(shader),
        spec_has_own_scope(pf, shader) || pf.active_profile is None,
    ensures
        r matches Some(name) ==> spec_profile_scope(pf, shader).contains(name),
        r is None <==> forall|k: Seq<char>| !spec_profile_scope(pf, shader).contains(k),
        !spec_has_own_scope(pf, shader) ==> spec_default_or_first(pf.profiles@.dom(), r),
{
    let names = spec_profile_scope(pf, shader);
    assert(spec_default_or_first(names, r));
    if r is None {
        assert(!names.contains("default"@));
    } else {
        assert(names.contains(r->0));
    }
}

/// The presets of the shader's own, if it has any.
fn own_scope<'a>(pf: &'a ParamsFile, shader: &str) -> (r: Option<&'a NameMap<ProfilePreset>>)
    requires
        pf.wf(),
    ensures
        match r {
            Some(scope) => spec_has_own_scope(*pf, shader@) && *scope == pf.shader_profiles@[shader@]
                && scope.wf(),
            None => !spec_has_own_scope(*pf, shader@),
        },
{
    match pf.shader_profiles.get(shader) {
        Some(per_shader) => {
            proof {
                per_shader.lemma_keys();
            }
            if per_shader.len() > 0 {
                proof {
                    let k = per_shader.keys()[0];
                    assert(per_shader@.contains_key(k));
                }
                Some(per_shader)
            } else {
                assert(per_shader.keys().to_set() =~= Set::empty());
                None
            }
        },
        None => None,
    }
}

/// The profile names a shader steps through, ascending: those of its own
/// presets if it has any, else the global ones.
pub fn sorted_profile_names_for_shader(pf: &ParamsFile, shader: &str) -> (r: Vec<String>)
    requires
        pf.wf(),
    ensures
        views(r@) == spec_ascending(spec_profile_scope(*pf, shader@)),
        spec_sorted(views(r@)),
        views(r@).to_set() == spec_profile_scope(*pf, shader@),
{
    match own_scope(pf, shader) {
        Some(per_shader) => per_shader.sorted_names(),
        None => pf.profiles.sorted_names(),
    }
}

/// What a scope offers when nothing is selected.
pub fn default_or_first(scope: &NameMap<ProfilePreset>) -> (r: Option<String>)
    requires
        scope.wf(),
    ensures
        spec_default_or_first(
            scope@.dom(),
            match r {
                Some(n) => Some(n@),
                None => None,
            },
        ),
{
    if scope.contains_key("default") {
        return Some(String::from_str("default"));
    }
    proof {
        scope.lemma_keys();
    }
    if scope.len() == 0 {
        assert forall|k: Seq<char>| !scope@.dom().contains(k) by {
            if scope@.contains_key(k) {
                let j = scope.keys().index_of(k);
            }
        }
        return None;
    }
    let mut best: usize = 0;
    let mut i: usize = 1;
    while i < scope.len()
        invariant
            scope.wf(),
            1 <= i <= scope.keys().len(),
            best < i,
            forall|j: int|
                0 <= j < i && j != best ==> lex_lt(scope.keys()[best as int], #[trigger] scope.keys()[j]),
        decreases scope.keys().len() - i,
    {
        proof {
            scope.lemma_keys();
        }
        let ghost kb = scope.keys()[best as int];
        let ghost ki = scope.keys()[i as int];
        if str_lt(scope.key_at(i).as_str(), scope.key_at(best).as_str()) {
            proof {
                assert forall|j: int| 0 <= j < i + 1 && j != i implies lex_lt(
                    ki,
                    #[trigger] scope.keys()[j],
                ) by {
                    if j != best {
                        lemma_lex_transitive(ki, kb, scope.keys()[j]);
                    }
                }
            }
            best = i;
        } else {
            proof {
                lemma_lex_total(kb, ki);
            }
        }
        i += 1;
    }
    proof {
        scope.lemma_keys();
        let n = scope.keys()[best as int];
        assert(scope@.contains_key(n));
        assert forall|k: Seq<char>| scope@.dom().contains(k) && k != n implies lex_lt(n, k) by {
            let j = scope.keys().index_of(k);
            assert(scope.keys()[j] == k);
        }
        assert(!(forall|k: Seq<char>| !scope@.dom().contains(k)));
    }
    Some(scope.key_at(best).clone())
}

/// The profile that is active when `shader` is loaded.
pub fn pick_active_profile_for_shader(pf: &ParamsFile, shader: &str) -> (r: Option<String>)
    requires
        pf.wf(),
    ensures
        spec_pick_active(
            *pf,
            shader@,
            match r {
                Some(n) => Some(n@),
                None => None,
            },
        ),
{
    if let Some(name) = pf.active_shader_profiles.get(shader) {
        return Some(name.clone());
    }
    if let Some(per_shader) = own_scope(pf, shader) {
        return default_or_first(per_shader);
    }
    if let Some(name) = &pf.active_profile {
        return Some(name.clone());
    }
    default_or_first(&pf.profiles)
}

/// Records `profile_name` as the active profile of `shader`.
pub fn set_active_profile_for_shader(pf: &mut ParamsFile, shader: &str, profile_name: &str)
    requires
        old(pf).wf(),
    ensures
        final(pf).wf(),
        final(pf).active_shader_profiles@ == old(pf).active_shader_profiles@.insert(
            shader@,
            final(pf).active_shader_profiles@[shader@],
        ),
        final(pf).active_shader_profiles@[shader@]@ == profile_name@,
        final(pf).version == old(pf).version,
        final(pf).midi == old(pf).midi,
        final(pf).osc == old(pf).osc,
        final(pf).params == old(pf).params,
        final(pf).profiles == old(pf).profiles,
        final(pf).shader_profiles == old(pf).shader_profiles,
        final(pf).active_profile == old(pf).active_profile,
        final(pf).profile_hotkeys == old(pf).profile_hotkeys,
{
    pf.active_shader_profiles.insert(String::from_str(shader), String::from_str(profile_name));
}

/// A step through the profiles of a shader.
pub enum ProfileAction {
    Next,
    Prev,
    Select(String),
}

/// Position of `name` in `names`, or zero when it is not among them.
pub open spec fn spec_position_or_zero(names: Seq<Seq<char>>, name: Seq<char>) -> int {
    if names.contains(name) {
        names.index_of_first(name)->0
    } else {
        0
    }
}

/// The profile a step leads to, given the names of the scope in order and
/// the current selection: none if the scope is empty; else the name asked
/// for, or the neighbour of the current one, going round at the ends. With
/// no current selection, or one that is not in the scope, stepping starts
/// from the first name.
pub open spec fn spec_step_profile(
    names: Seq<Seq<char>>,
    current: Option<Seq<char>>,
    action: ProfileAction,
) -> Option<Seq<char>> {
    if names.len() == 0 {
        None
    } else {
        let at = match current {
            Some(c) => spec_position_or_zero(names, c),
            None => 0,
        };
        match action {
            ProfileAction::Next => Some(names[(at + 1) % (names.len() as int)]),
            ProfileAction::Prev => Some(names[(at + names.len() - 1) % (names.len() as int)]),
            ProfileAction::Select(n) => Some(n@),
        }
    }
}

/// Position of the first occurrence of `name`, or zero.
fn position_or_zero(names: &Vec<String>, name: &str) -> (r: usize)
    requires
        names.len() > 0,
    ensures
        r == spec_position_or_zero(views(names@), name@),
        r < names.len(),
{
    let ghost vs = views(names@);
    let mut i: usize = 0;
    while i < names.len()
        invariant
            i <= names.len(),
            vs == views(names@),
            forall|j: int| 0 <= j < i ==> vs[j] != name@,
        decreases names.len() - i,
    {
        if str_eq(names[i].as_str(), name) {
            proof {
                assert(vs[i as int] == name@);
                vs.index_of_first_ensures(name@);
            }
            return i;
        }
        i += 1;
    }
    0
}

/// Steps from the current profile to another one.
pub fn step_profile(names: &Vec<String>, current: Option<&str>, action: ProfileAction) -> (r: Option<
    String,
>)
    ensures
        match r {
            Some(n) => spec_step_profile(
                views(names@),
                match current {
                    Some(c) => Some(c@),
                    None => None,
                },
                action,
            ) == Some(n@),
            None => names@.len() == 0,
        },
{
    let n = names.len();
    if n == 0 {
        return None;
    }
    let at = match current {
        Some(c) => position_or_zero(names, c),
        None => 0,
    };
    match action {
        ProfileAction::Next => {
            let k = if at + 1 == n {
                0
            } else {
                at + 1
            };
            assert(k == (at + 1) % (n as int)) by (nonlinear_arith)
                requires
                    0 <= at < n,
                    k == if at + 1 == n {
                        0
                    } else {
                        at + 1
                    },
            ;
            Some(names[k].clone())
        },
        ProfileAction::Prev => {
            let k = if at == 0 {
                n - 1
            } else {
                at - 1
            };
            assert(k == (at + n - 1) % (n as int)) by (nonlinear_arith)
                requires
                    0 <= at < n,
                    k == if at == 0 {
                        n - 1
                    } else {
                        at - 1
                    },
            ;
            Some(names[k].clone())
        },
        ProfileAction::Select(name) => Some(name),
    }
}

} // verus!
