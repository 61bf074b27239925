//! Findings about a configuration and how they are put into words.

use vstd::prelude::*;
use vstd::string::*;
use crate::logging::LogLevel;
use crate::text::{
    chars_of, insert_sorted, lemma_ascending, push_decimal, spec_ascending, spec_decimal, spec_sorted,
    str_eq, views,
};

verus! {

/// How serious a finding is.
#[derive(Clone, Copy, PartialEq, Eq, Structural, Debug)]
pub enum IssueLevel {
    Warn,
    Error,
}

/// One finding: where it is, what is wrong and what to do about it.
#[derive(Debug)]
pub struct ValidationIssue {
    pub level: IssueLevel,
    pub path: String,
    pub message: String,
    pub hint: Option<String>,
}

impl ValidationIssue {
    /// A finding that does not keep the configuration from being used.
    pub fn warn(path: &str, message: &str, hint: Option<String>) -> (r: Self)
        ensures
            r.level == IssueLevel::Warn,
            r.path@ == path@,
            r.message@ == message@,
            r.hint == hint,
    {
        ValidationIssue {
            level: IssueLevel::Warn,
            path: String::from_str(path),
            message: String::from_str(message),
            hint,
        }
    }

    /// A finding that makes part of the configuration unusable.
    pub fn error(path: &str, message: &str, hint: Option<String>) -> (r: Self)
        ensures
            r.level == IssueLevel::Error,
            r.path@ == path@,
            r.message@ == message@,
            r.hint == hint,
    {
        ValidationIssue {
            level: IssueLevel::Error,
            path: String::from_str(path),
            message: String::from_str(message),
            hint,
        }
    }
}

/// A line for the log: its level, its tag and its text.
pub struct LogEntry {
    pub level: LogLevel,
    pub tag: String,
    pub text: String,
}

/// A finding in words: path and message, and the hint if there is one.
pub open spec fn spec_issue_text(issue: ValidationIssue) -> Seq<char> {
    match issue.hint {
        Some(h) => issue.path@ + ": "@ + issue.message@ + " (hint: "@ + h@ + ")"@,
        None => issue.path@ + ": "@ + issue.message@,
    }
}

/// The level at which a finding is logged.
pub open spec fn spec_issue_log_level(level: IssueLevel) -> LogLevel {
    match level {
        IssueLevel::Warn => LogLevel::Warn,
        IssueLevel::Error => LogLevel::Error,
    }
}

/// Puts a finding into words.
pub fn issue_text(issue: &ValidationIssue) -> (r: String)
    ensures
        r@ == spec_issue_text(*issue),
{
    let mut out = String::from_str(issue.path.as_str());
    out.append(": ");
    out.append(issue.message.as_str());
    if let Some(h) = &issue.hint {
        out.append(" (hint: ");
        out.append(h.as_str());
        out.append(")");
    }
    out
}

/// The log lines for a list of findings: one for each, in order, under
/// `tag`, a warning as a warning and an error as an error.
pub fn emit_issues(tag: &str, issues: &Vec<ValidationIssue>) -> (r: Vec<LogEntry>)
    ensures
        r@.len() == issues@.len(),
        forall|i: int|
            0 <= i < issues@.len() ==> {
                &&& (#[trigger] r@[i]).level == spec_issue_log_level(issues@[i].level)
                &&& r@[i].tag@ == tag@
                &&& r@[i].text@ == spec_issue_text(issues@[i])
            },
{
    let mut out: Vec<LogEntry> = Vec::new();
    let mut i: usize = 0;
    while i < issues.len()
        invariant
            i <= issues.len(),
            out@.len() == i,
            forall|j: int|
                0 <= j < i ==> {
                    &&& (#[trigger] out@[j]).level == spec_issue_log_level(issues@[j].level)
                    &&& out@[j].tag@ == tag@
                    &&& out@[j].text@ == spec_issue_text(issues@[j])
                },
        decreases issues.len() - i,
    {
        let it = &issues[i];
        let level = match it.level {
            IssueLevel::Warn => LogLevel::Warn,
            IssueLevel::Error => LogLevel::Error,
        };
        out.push(LogEntry { level, tag: String::from_str(tag), text: issue_text(it) });
        i += 1;
    }
    out
}

/// How many of the findings have the level `level`.
pub open spec fn spec_count_level(issues: Seq<ValidationIssue>, level: IssueLevel) -> nat
    decreases issues.len(),
{
    if issues.len() == 0 {
        0
    } else {
        spec_count_level(issues.drop_last(), level) + if issues.last().level == level {
            1nat
        } else {
            0nat
        }
    }
}

/// Counts the findings of a level.
pub fn count_level(issues: &Vec<ValidationIssue>, level: IssueLevel) -> (n: usize)
    ensures
        n == spec_count_level(issues@, level),
{
    let mut n: usize = 0;
    let mut i: usize = 0;
    while i < issues.len()
        invariant
            i <= issues.len(),
            n <= i,
            n == spec_count_level(issues@.take(i as int), level),
        decreases issues.len() - i,
    {
        proof {
            assert(issues@.take(i + 1).drop_last() == issues@.take(i as int));
            assert(issues@.take(i + 1).last() == issues@[i as int]);
        }
        if issues[i].level == level {
            n += 1;
        }
        i += 1;
    }
    assert(issues@.take(issues@.len() as int) == issues@);
    n
}

/// The summary of a validation in words.
pub open spec fn spec_summary_text(label: Seq<char>, errors: nat, warnings: nat) -> Seq<char> {
    if errors == 0 && warnings == 0 {
        "validation: "@ + label + " OK (0 issues)"@
    } else {
        "validation: "@ + label + " issues found (errors="@ + spec_decimal(errors) + " warnings="@
            + spec_decimal(warnings) + ")"@
    }
}

/// The log line that sums a validation up, also when nothing was found: a
/// clean result at the level of information, anything else as a warning.
pub fn emit_summary(tag: &str, label: &str, issues: &Vec<ValidationIssue>) -> (r: LogEntry)
    ensures
        r.tag@ == tag@,
        r.text@ == spec_summary_text(
            label@,
            spec_count_level(issues@, IssueLevel::Error),
            spec_count_level(issues@, IssueLevel::Warn),
        ),
        r.level == if spec_count_level(issues@, IssueLevel::Error) == 0 && spec_count_level(
            issues@,
            IssueLevel::Warn,
        ) == 0 {
            LogLevel::Info
        } else {
            LogLevel::Warn
        },
{
    let warns = count_level(issues, IssueLevel::Warn);
    let errs = count_level(issues, IssueLevel::Error);
    let mut text = String::from_str("validation: ");
    text.append(label);
    if errs == 0 && warns == 0 {
        text.append(" OK (0 issues)");
        LogEntry { level: LogLevel::Info, tag: String::from_str(tag), text }
    } else {
        text.append(" issues found (errors=");
        push_decimal(&mut text, errs as u64);
        text.append(" warnings=");
        push_decimal(&mut text, warns as u64);
        text.append(")");
        LogEntry { level: LogLevel::Warn, tag: String::from_str(tag), text }
    }
}

/// A character as it stands in a JSON pointer: `~` becomes `~0` and `/`
/// becomes `~1`.
pub open spec fn spec_escape_char(c: char) -> Seq<char> {
    if c == '~' {
        seq!['~', '0']
    } else if c == '/' {
        seq!['~', '1']
    } else {
        seq![c]
    }
}

/// A text as it stands in a JSON pointer.
pub open spec fn spec_escape_ptr(s: Seq<char>) -> Seq<char>
    decreases s.len(),
{
    if s.len() == 0 {
        Seq::empty()
    } else {
        spec_escape_ptr(s.drop_last()) + spec_escape_char(s.last())
    }
}

/// Escapes a text for use as one part of a JSON pointer.
pub fn escape_ptr(s: &str) -> (r: String)
    ensures
        r@ == spec_escape_ptr(s@),
{
    let v = chars_of(s);
    let mut out = String::new();
    let mut i: usize = 0;
    while i < v.len()
        invariant
            i <= v.len(),
            out@ == spec_escape_ptr(v@.take(i as int)),
        decreases v.len() - i,
    {
        proof {
            assert(v@.take(i + 1).drop_last() == v@.take(i as int));
            assert(v@.take(i + 1).last() == v@[i as int]);
        }
        let c = v[i];
        let ghost before = out@;
        if c == '~' {
            out.push('~');
            out.push('0');
            assert(out@ == before + seq!['~', '0']);
        } else if c == '/' {
            out.push('~');
            out.push('1');
            assert(out@ == before + seq!['~', '1']);
        } else {
            out.push(c);
            assert(out@ == before + seq![c]);
        }
        i += 1;
    }
    assert(v@.take(v@.len() as int) == v@);
    out
}

/// The texts joined by a comma and a space.
pub open spec fn spec_join_names(names: Seq<Seq<char>>) -> Seq<char>
    decreases names.len(),
{
    if names.len() == 0 {
        Seq::empty()
    } else if names.len() == 1 {
        names[0]
    } else {
        spec_join_names(names.drop_last()) + ", "@ + names.last()
    }
}

/// Joins the names in the order given.
pub fn join_names(names: &Vec<String>) -> (r: String)
    ensures
        r@ == spec_join_names(views(names@)),
{
    let mut out = String::new();
    let mut i: usize = 0;
    let ghost vs = views(names@);
    while i < names.len()
        invariant
            i <= names.len(),
            vs == views(names@),
            out@ == spec_join_names(vs.take(i as int)),
        decreases names.len() - i,
    {
        proof {
            assert(vs.take(i + 1).drop_last() == vs.take(i as int));
            assert(vs.take(i + 1).last() == vs[i as int]);
            if i == 0 {
                assert(vs.take(1)[0] == vs[0]);
            }
        }
        if i > 0 {
            out.append(", ");
        }
        out.append(names[i].as_str());
        i += 1;
    }
    assert(vs.take(vs.len() as int) == vs);
    out
}

/// The names in ascending order, each once.
pub fn sort_names(names: &Vec<String>) -> (r: Vec<String>)
    ensures
        views(r@) == spec_ascending(views(names@).to_set()),
        spec_sorted(views(r@)),
        views(r@).to_set() == views(names@).to_set(),
{
    let mut out: Vec<String> = Vec::new();
    let ghost vs = views(names@);
    assert(views(out@).to_set() =~= vs.take(0).to_set());
    let mut i: usize = 0;
    while i < names.len()
        invariant
            i <= names.len(),
            vs == views(names@),
            spec_sorted(views(out@)),
            views(out@).to_set() == vs.take(i as int).to_set(),
        decreases names.len() - i,
    {
        insert_sorted(&mut out, names[i].as_str());
        proof {
            assert(vs.take(i + 1) == vs.take(i as int).push(vs[i as int]));
            vs.take(i as int).lemma_push_to_set_commute(vs[i as int]);
        }
        i += 1;
    }
    proof {
        assert(vs.take(vs.len() as int) == vs);
        lemma_ascending(views(out@));
    }
    out
}

/// A set of names in words: ascending, joined by a comma and a space.
pub open spec fn spec_join_set(names: Set<Seq<char>>) -> Seq<char> {
    spec_join_names(spec_ascending(names))
}

/// The names in ascending order, each once, joined by a comma and a space.
pub fn join_set(names: &Vec<String>) -> (r: String)
    ensures
        r@ == spec_join_set(views(names@).to_set()),
{
    let sorted = sort_names(names);
    join_names(&sorted)
}

/// A finding as texts.
pub struct IssueView {
    pub level: IssueLevel,
    pub path: Seq<char>,
    pub message: Seq<char>,
    pub hint: Option<Seq<char>>,
}

impl View for ValidationIssue {
    type V = IssueView;

    open spec fn view(&self) -> IssueView {
        IssueView {
            level: self.level,
            path: self.path@,
            message: self.message@,
            hint: match self.hint {
                Some(h) => Some(h@),
                None => None,
            },
        }
    }
}

/// The findings of a list as texts.
pub open spec fn issue_views(issues: Seq<ValidationIssue>) -> Seq<IssueView> {
    Seq::new(issues.len(), |i: int| issues[i]@)
}

/// A warning with a hint.
pub open spec fn spec_warn(path: Seq<char>, message: Seq<char>, hint: Seq<char>) -> IssueView {
    IssueView { level: IssueLevel::Warn, path, message, hint: Some(hint) }
}

/// An error with a hint.
pub open spec fn spec_error(path: Seq<char>, message: Seq<char>, hint: Seq<char>) -> IssueView {
    IssueView { level: IssueLevel::Error, path, message, hint: Some(hint) }
}

/// Adds a warning to the list.
fn push_warn(issues: &mut Vec<ValidationIssue>, path: &str, message: &str, hint: &str)
    ensures
        issue_views(final(issues)@) == issue_views(old(issues)@).push(spec_warn(path@, message@, hint@)),
{
    issues.push(ValidationIssue::warn(path, message, Some(String::from_str(hint))));
    assert(issue_views(issues@) =~= issue_views(old(issues)@).push(spec_warn(path@, message@, hint@)));
}

/// Adds an error to the list.
fn push_error(issues: &mut Vec<ValidationIssue>, path: &str, message: &str, hint: &str)
    ensures
        issue_views(final(issues)@) == issue_views(old(issues)@).push(spec_error(path@, message@, hint@)),
{
    issues.push(ValidationIssue::error(path, message, Some(String::from_str(hint))));
    assert(issue_views(issues@) =~= issue_views(old(issues)@).push(spec_error(path@, message@, hint@)));
}

/// Whether the list holds the text.
pub fn holds(names: &Vec<String>, upto: usize, name: &str) -> (r: bool)
    requires
        upto <= names.len(),
    ensures
        r == views(names@).take(upto as int).contains(name@),
{
    let ghost vs = views(names@).take(upto as int);
    let mut i: usize = 0;
    while i < upto
        invariant
            i <= upto <= names.len(),
            vs == views(names@).take(upto as int),
            forall|j: int| 0 <= j < i ==> vs[j] != name@,
        decreases upto - i,
    {
        if str_eq(names[i].as_str(), name) {
            assert(vs[i as int] == name@);
            return true;
        }
        i += 1;
    }
    false
}

/// One profile of a shader as far as the validation reads it: its name
/// and, where it has a table of uniforms, their names.
pub struct ProfileShape {
    pub name: String,
    pub uniforms: Option<Vec<String>>,
}

/// One entry of the per-shader profiles: the shader and, where the entry
/// is a table, its profiles.
pub struct ShaderShape {
    pub shader: String,
    pub profiles: Option<Vec<ProfileShape>>,
}

/// One entry of the per-shader selections: the shader and the name of the
/// selected profile, empty where it is not a text.
pub struct ActiveShape {
    pub shader: String,
    pub profile: String,
}

/// The parameter configuration as far as the validation reads it. A part
/// that is missing or has the wrong shape is `None`.
pub struct ParamsShape {
    /// The names of the definitions; `None` for one without a name.
    pub params: Option<Vec<Option<String>>>,
    pub shader_profiles: Option<Vec<ShaderShape>>,
    pub active_shader_profiles: Option<Vec<ActiveShape>>,
}

/// The names of the definitions that have one, in order.
pub open spec fn spec_param_names(params: Seq<Option<String>>) -> Seq<Seq<char>>
    decreases params.len(),
{
    if params.len() == 0 {
        Seq::empty()
    } else {
        let rest = spec_param_names(params.drop_last());
        match params.last() {
            Some(n) => rest.push(n@),
            None => rest,
        }
    }
}

/// The finding about a definition without a name.
pub open spec fn spec_missing_name(i: int) -> IssueView {
    spec_error(
        "params.json:/params/"@ + spec_decimal(i as nat) + "/name"@,
        "missing or non-string param name"@,
        "each entry in /params must include a string field 'name'"@,
    )
}

/// The findings about definitions without a name, in order.
pub open spec fn spec_missing_names(params: Seq<Option<String>>) -> Seq<IssueView>
    decreases params.len(),
{
    if params.len() == 0 {
        Seq::empty()
    } else {
        let rest = spec_missing_names(params.drop_last());
        match params.last() {
            Some(n) => rest,
            None => rest.push(spec_missing_name(params.len() - 1)),
        }
    }
}

/// The finding about a name that occurs again.
pub open spec fn spec_duplicate(name: Seq<char>) -> IssueView {
    spec_error(
        "params.json:/params"@,
        "duplicate param name '"@ + name + "'"@,
        "param names must be unique; duplicates make mappings ambiguous"@,
    )
}

/// The findings about names that occur again: one for each occurrence
/// after the first, in order.
pub open spec fn spec_duplicates(names: Seq<Seq<char>>) -> Seq<IssueView>
    decreases names.len(),
{
    if names.len() == 0 {
        Seq::empty()
    } else {
        let rest = spec_duplicates(names.drop_last());
        if names.drop_last().contains(names.last()) {
            rest.push(spec_duplicate(names.last()))
        } else {
            rest
        }
    }
}

/// The place of a shader's profiles in the findings.
pub open spec fn spec_shader_base(shader: Seq<char>) -> Seq<char> {
    "params.json:/shader_profiles/"@ + spec_escape_ptr(shader)
}

/// The place of a profile in the findings.
pub open spec fn spec_profile_base(shader_base: Seq<char>, profile: Seq<char>) -> Seq<char> {
    shader_base + "/"@ + spec_escape_ptr(profile)
}

/// The finding about a uniform that is not defined.
pub open spec fn spec_undeclared(profile_base: Seq<char>, uniform: Seq<char>) -> IssueView {
    spec_warn(
        profile_base + "/uniforms/"@ + spec_escape_ptr(uniform),
        "uniform '"@ + uniform + "' not declared in params.json:/params"@,
        "add it under /params, or remove it from this profile"@,
    )
}

/// The findings about the uniforms of a profile that are not defined.
pub open spec fn spec_undeclared_uniforms(
    profile_base: Seq<char>,
    uniforms: Seq<Seq<char>>,
    names: Seq<Seq<char>>,
) -> Seq<IssueView>
    decreases uniforms.len(),
{
    if uniforms.len() == 0 {
        Seq::empty()
    } else {
        let rest = spec_undeclared_uniforms(profile_base, uniforms.drop_last(), names);
        if names.contains(uniforms.last()) {
            rest
        } else {
            rest.push(spec_undeclared(profile_base, uniforms.last()))
        }
    }
}

/// The findings about one profile.
pub open spec fn spec_profile_findings(shader_base: Seq<char>, p: ProfileShape, names: Seq<Seq<char>>) -> Seq<
    IssueView,
> {
    let base = spec_profile_base(shader_base, p.name@);
    match p.uniforms {
        Some(u) => spec_undeclared_uniforms(base, views(u@), names),
        None => seq![
            spec_warn(
                base + "/uniforms"@,
                "missing or non-object 'uniforms' for this profile"@,
                "expected: \"uniforms\": { \"u_gain\": 0.5, ... }"@,
            ),
        ],
    }
}

/// The findings about the profiles of one shader, in order.
pub open spec fn spec_profiles_findings(
    shader_base: Seq<char>,
    profiles: Seq<ProfileShape>,
    names: Seq<Seq<char>>,
) -> Seq<IssueView>
    decreases profiles.len(),
{
    if profiles.len() == 0 {
        Seq::empty()
    } else {
        spec_profiles_findings(shader_base, profiles.drop_last(), names) + spec_profile_findings(
            shader_base,
            profiles.last(),
            names,
        )
    }
}

/// The names of the profiles.
pub open spec fn spec_profile_names(profiles: Seq<ProfileShape>) -> Seq<Seq<char>> {
    Seq::new(profiles.len(), |i: int| profiles[i].name@)
}

/// The findings about one entry of the per-shader profiles.
pub open spec fn spec_shader_findings(s: ShaderShape, names: Seq<Seq<char>>) -> Seq<IssueView> {
    let base = spec_shader_base(s.shader@);
    match s.profiles {
        None => seq![
            spec_error(
                base,
                "shader_profiles entry must be an object of profiles"@,
                "expected: { \"default\": {\"uniforms\": {...}}, \"lofi\": {...} }"@,
            ),
        ],
        Some(ps) => {
            let head = if spec_profile_names(ps@).contains("default"@) {
                Seq::empty()
            } else {
                seq![
                    spec_warn(
                        base,
                        "no 'default' profile found for this shader"@,
                        "recommended to include a 'default' profile for predictable startup"@,
                    ),
                ]
            };
            head + spec_profiles_findings(base, ps@, names)
        },
    }
}

/// The findings about the per-shader profiles, in order.
pub open spec fn spec_shaders_findings(shaders: Seq<ShaderShape>, names: Seq<Seq<char>>) -> Seq<IssueView>
    decreases shaders.len(),
{
    if shaders.len() == 0 {
        Seq::empty()
    } else {
        spec_shaders_findings(shaders.drop_last(), names) + spec_shader_findings(shaders.last(), names)
    }
}

/// The profile names of a shader: those of the last entry for the shader
/// that is a table.
pub open spec fn spec_profiles_of(shaders: Seq<ShaderShape>, shader: Seq<char>) -> Option<Seq<Seq<char>>>
    decreases shaders.len(),
{
    if shaders.len() == 0 {
        None
    } else if shaders.last().shader@ == shader && shaders.last().profiles is Some {
        Some(spec_profile_names(shaders.last().profiles->0@))
    } else {
        spec_profiles_of(shaders.drop_last(), shader)
    }
}

/// The place of a shader's selection in the findings.
pub open spec fn spec_active_path(shader: Seq<char>) -> Seq<char> {
    "params.json:/active_shader_profiles/"@ + spec_escape_ptr(shader)
}

/// The findings about one selection: it names no profile; its shader has
/// no profiles; its shader's profiles do not hold the name.
pub open spec fn spec_active_findings(shaders: Seq<ShaderShape>, a: ActiveShape) -> Seq<IssueView> {
    let path = spec_active_path(a.shader@);
    if a.profile@.len() == 0 {
        seq![
            spec_warn(
                path,
                "active profile name is empty or non-string"@,
                "set to a valid profile name, e.g. \"default\""@,
            ),
        ]
    } else {
        match spec_profiles_of(shaders, a.shader@) {
            None => seq![
                spec_warn(
                    path,
                    "active profile '"@ + a.profile@ + "' references shader '"@ + a.shader@
                        + "' with no entry under shader_profiles"@,
                    "either add shader_profiles[shader] or remove this active_shader_profiles entry"@,
                ),
            ],
            Some(ps) => if ps.contains(a.profile@) {
                Seq::empty()
            } else {
                seq![
                    spec_warn(
                        path,
                        "active profile '"@ + a.profile@ + "' not found; available: "@ + spec_join_set(
                            ps.to_set(),
                        ),
                        "fix the name, or add that profile under shader_profiles for this shader"@,
                    ),
                ]
            },
        }
    }
}

/// The findings about the selections, in order.
pub open spec fn spec_actives_findings(shaders: Seq<ShaderShape>, actives: Seq<ActiveShape>) -> Seq<
    IssueView,
>
    decreases actives.len(),
{
    if actives.len() == 0 {
        Seq::empty()
    } else {
        spec_actives_findings(shaders, actives.drop_last()) + spec_active_findings(
            shaders,
            actives.last(),
        )
    }
}

/// The entries of the per-shader profiles, none where the part is missing.
pub open spec fn spec_shaders(shape: ParamsShape) -> Seq<ShaderShape> {
    match shape.shader_profiles {
        Some(s) => s@,
        None => Seq::empty(),
    }
}

/// All findings about a parameter configuration. Without a list of
/// definitions there is that one finding. Else, in this order: the
/// definitions without a name; the names that occur again; the per-shader
/// profiles; the per-shader selections.
pub open spec fn spec_validate_params(shape: ParamsShape) -> Seq<IssueView> {
    match shape.params {
        None => seq![
            spec_error(
                "params.json:/params"@,
                "missing or non-array 'params'"@,
                "expected an array like: { \"params\": [ {\"name\": \"u_gain\", ...}, ... ] }"@,
            ),
        ],
        Some(params) => {
            let names = spec_param_names(params@);
            let about_profiles = match shape.shader_profiles {
                Some(s) => spec_shaders_findings(s@, names),
                None => seq![
                    spec_warn(
                        "params.json:/shader_profiles"@,
                        "missing or non-object 'shader_profiles'"@,
                        "profiles are optional; omit if you don't need per-shader defaults"@,
                    ),
                ],
            };
            let about_actives = match shape.active_shader_profiles {
                Some(a) => spec_actives_findings(spec_shaders(shape), a@),
                None => seq![
                    spec_warn(
                        "params.json:/active_shader_profiles"@,
                        "missing or non-object 'active_shader_profiles'"@,
                        "optional; if omitted, ShadeCore falls back to 'default' when available"@,
                    ),
                ],
            };
            spec_missing_names(params@) + spec_duplicates(names) + about_profiles + about_actives
        },
    }
}

/// The names of the profiles.
fn profile_names(profiles: &Vec<ProfileShape>) -> (r: Vec<String>)
    ensures
        views(r@) == spec_profile_names(profiles@),
{
    let mut out: Vec<String> = Vec::new();
    let mut i: usize = 0;
    while i < profiles.len()
        invariant
            i <= profiles.len(),
            out@.len() == i,
            forall|j: int| 0 <= j < i ==> (#[trigger] out@[j])@ == profiles@[j].name@,
        decreases profiles.len() - i,
    {
        out.push(profiles[i].name.clone());
        i += 1;
    }
    assert(views(out@) =~= spec_profile_names(profiles@));
    out
}

/// The profile names of a shader.
fn profiles_of(shaders: &Vec<ShaderShape>, shader: &str) -> (r: Option<Vec<String>>)
    ensures
        match r {
            Some(ps) => spec_profiles_of(shaders@, shader@) == Some(views(ps@)),
            None => spec_profiles_of(shaders@, shader@) is None,
        },
{
    let mut i: usize = shaders.len();
    assert(shaders@.take(shaders@.len() as int) == shaders@);
    while i > 0
        invariant
            i <= shaders.len(),
            spec_profiles_of(shaders@, shader@) == spec_profiles_of(shaders@.take(i as int), shader@),
        decreases i,
    {
        proof {
            assert(shaders@.take(i as int).last() == shaders@[i - 1]);
            assert(shaders@.take(i as int).drop_last() == shaders@.take(i - 1));
        }
        if str_eq(shaders[i - 1].shader.as_str(), shader) {
            if let Some(ps) = &shaders[i - 1].profiles {
                return Some(profile_names(ps));
            }
        }
        i -= 1;
    }
    None
}

/// Adds the findings about one profile.
fn check_profile(issues: &mut Vec<ValidationIssue>, shader_base: &str, p: &ProfileShape, names: &Vec<String>)
    ensures
        issue_views(final(issues)@) == issue_views(old(issues)@) + spec_profile_findings(
            shader_base@,
            *p,
            views(names@),
        ),
{
    let mut base = String::from_str(shader_base);
    base.append("/");
    base.append(escape_ptr(p.name.as_str()).as_str());
    assert(base@ == spec_profile_base(shader_base@, p.name@));
    match &p.uniforms {
        Some(u) => {
            let ghost us = views(u@);
            let ghost start = issue_views(issues@);
            let mut i: usize = 0;
            assert(start + Seq::<IssueView>::empty() == start);
            while i < u.len()
                invariant
                    i <= u.len(),
                    us == views(u@),
                    base@ == spec_profile_base(shader_base@, p.name@),
                    issue_views(issues@) == start + spec_undeclared_uniforms(
                        base@,
                        us.take(i as int),
                        views(names@),
                    ),
                decreases u.len() - i,
            {
                proof {
                    assert(us.take(i + 1).drop_last() == us.take(i as int));
                    assert(us.take(i + 1).last() == us[i as int]);
                    assert(views(names@).take(names@.len() as int) == views(names@));
                }
                let uname = u[i].as_str();
                if !holds(names, names.len(), uname) {
                    let mut path = String::from_str(base.as_str());
                    path.append("/uniforms/");
                    path.append(escape_ptr(uname).as_str());
                    let mut message = String::from_str("uniform '");
                    message.append(uname);
                    message.append("' not declared in params.json:/params");
                    let ghost before = issue_views(issues@);
                    push_warn(
                        issues,
                        path.as_str(),
                        message.as_str(),
                        "add it under /params, or remove it from this profile",
                    );
                    proof {
                        let prev = spec_undeclared_uniforms(base@, us.take(i as int), views(names@));
                        assert((start + prev).push(spec_undeclared(base@, us[i as int])) == start
                            + prev.push(spec_undeclared(base@, us[i as int])));
                    }
                }
                i += 1;
            }
            assert(us.take(us.len() as int) == us);
        },
        None => {
            let mut path = String::from_str(base.as_str());
            path.append("/uniforms");
            let ghost before = issue_views(issues@);
            push_warn(
                issues,
                path.as_str(),
                "missing or non-object 'uniforms' for this profile",
                "expected: \"uniforms\": { \"u_gain\": 0.5, ... }",
            );
            assert(issue_views(issues@) =~= before + spec_profile_findings(
                shader_base@,
                *p,
                views(names@),
            ));
        },
    }
}

/// Adds the findings about one entry of the per-shader profiles.
fn check_shader(issues: &mut Vec<ValidationIssue>, s: &ShaderShape, names: &Vec<String>)
    ensures
        issue_views(final(issues)@) == issue_views(old(issues)@) + spec_shader_findings(
            *s,
            views(names@),
        ),
{
    let base = {
        let mut b = String::from_str("params.json:/shader_profiles/");
        b.append(escape_ptr(s.shader.as_str()).as_str());
        b
    };
    let ghost start = issue_views(issues@);
    match &s.profiles {
        None => {
            push_error(
                issues,
                base.as_str(),
                "shader_profiles entry must be an object of profiles",
                "expected: { \"default\": {\"uniforms\": {...}}, \"lofi\": {...} }",
            );
            assert(issue_views(issues@) =~= start + spec_shader_findings(*s, views(names@)));
        },
        Some(ps) => {
            let pnames = profile_names(ps);
            proof {
                assert(views(pnames@).take(pnames@.len() as int) == views(pnames@));
            }
            if !holds(&pnames, pnames.len(), "default") {
                push_warn(
                    issues,
                    base.as_str(),
                    "no 'default' profile found for this shader",
                    "recommended to include a 'default' profile for predictable startup",
                );
            }
            let ghost head = issue_views(issues@);
            assert(head + Seq::<IssueView>::empty() == head);
            let mut i: usize = 0;
            while i < ps.len()
                invariant
                    i <= ps.len(),
                    base@ == spec_shader_base(s.shader@),
                    issue_views(issues@) == head + spec_profiles_findings(
                        base@,
                        ps@.take(i as int),
                        views(names@),
                    ),
                decreases ps.len() - i,
            {
                proof {
                    assert(ps@.take(i + 1).drop_last() == ps@.take(i as int));
                    assert(ps@.take(i + 1).last() == ps@[i as int]);
                }
                let ghost prev = spec_profiles_findings(base@, ps@.take(i as int), views(names@));
                check_profile(issues, base.as_str(), &ps[i], names);
                proof {
                    let add = spec_profile_findings(base@, ps@[i as int], views(names@));
                    assert((head + prev) + add == head + (prev + add));
                }
                i += 1;
            }
            proof {
                assert(ps@.take(ps@.len() as int) == ps@);
                let tail_part = spec_profiles_findings(base@, ps@, views(names@));
                if spec_profile_names(ps@).contains("default"@) {
                    assert(head == start);
                    assert(Seq::<IssueView>::empty() + tail_part == tail_part);
                } else {
                    let w = spec_warn(
                        base@,
                        "no 'default' profile found for this shader"@,
                        "recommended to include a 'default' profile for predictable startup"@,
                    );
                    assert(head == start.push(w));
                    assert(start.push(w) + tail_part == start + (seq![w] + tail_part));
                }
            }
        },
    }
}

/// Adds the findings about one selection.
fn check_active(issues: &mut Vec<ValidationIssue>, shaders: &Vec<ShaderShape>, a: &ActiveShape)
    ensures
        issue_views(final(issues)@) == issue_views(old(issues)@) + spec_active_findings(shaders@, *a),
{
    let ghost start = issue_views(issues@);
    let mut path = String::from_str("params.json:/active_shader_profiles/");
    path.append(escape_ptr(a.shader.as_str()).as_str());
    if a.profile.as_str().is_empty() {
        push_warn(
            issues,
            path.as_str(),
            "active profile name is empty or non-string",
            "set to a valid profile name, e.g. \"default\"",
        );
        assert(issue_views(issues@) =~= start + spec_active_findings(shaders@, *a));
        return ;
    }
    match profiles_of(shaders, a.shader.as_str()) {
        None => {
            let mut message = String::from_str("active profile '");
            message.append(a.profile.as_str());
            message.append("' references shader '");
            message.append(a.shader.as_str());
            message.append("' with no entry under shader_profiles");
            push_warn(
                issues,
                path.as_str(),
                message.as_str(),
                "either add shader_profiles[shader] or remove this active_shader_profiles entry",
            );
            assert(issue_views(issues@) =~= start + spec_active_findings(shaders@, *a));
        },
        Some(ps) => {
            proof {
                assert(views(ps@).take(ps@.len() as int) == views(ps@));
            }
            if !holds(&ps, ps.len(), a.profile.as_str()) {
                let mut message = String::from_str("active profile '");
                message.append(a.profile.as_str());
                message.append("' not found; available: ");
                message.append(join_set(&ps).as_str());
                push_warn(
                    issues,
                    path.as_str(),
                    message.as_str(),
                    "fix the name, or add that profile under shader_profiles for this shader",
                );
                assert(issue_views(issues@) =~= start + spec_active_findings(shaders@, *a));
            } else {
                assert(issue_views(issues@) =~= start + spec_active_findings(shaders@, *a));
            }
        },
    }
}

/// Checks how the parts of a parameter configuration fit together: every
/// definition has a name, no name occurs twice, the profiles of a shader
/// set only what is defined, and the selections name profiles that exist.
pub fn validate_params_json(shape: &ParamsShape) -> (r: Vec<ValidationIssue>)
    ensures
        issue_views(r@) == spec_validate_params(*shape),
{
    let mut issues: Vec<ValidationIssue> = Vec::new();
    assert(issue_views(issues@) =~= Seq::<IssueView>::empty());
    let params = match &shape.params {
        Some(p) => p,
        None => {
            push_error(
                &mut issues,
                "params.json:/params",
                "missing or non-array 'params'",
                "expected an array like: { \"params\": [ {\"name\": \"u_gain\", ...}, ... ] }",
            );
            assert(issue_views(issues@) =~= spec_validate_params(*shape));
            return issues;
        },
    };
    let mut names: Vec<String> = Vec::new();
    assert(views(names@) =~= Seq::<Seq<char>>::empty());
    let mut i: usize = 0;
    while i < params.len()
        invariant
            i <= params.len(),
            views(names@) == spec_param_names(params@.take(i as int)),
            issue_views(issues@) == spec_missing_names(params@.take(i as int)),
        decreases params.len() - i,
    {
        proof {
            assert(params@.take(i + 1).drop_last() == params@.take(i as int));
            assert(params@.take(i + 1).last() == params@[i as int]);
        }
        match &params[i] {
            Some(n) => {
                let ghost before = views(names@);
                names.push(n.clone());
                assert(views(names@) =~= before.push(n@));
            },
            None => {
                let mut path = String::from_str("params.json:/params/");
                push_decimal(&mut path, i as u64);
                path.append("/name");
                push_error(
                    &mut issues,
                    path.as_str(),
                    "missing or non-string param name",
                    "each entry in /params must include a string field 'name'",
                );
            },
        }
        i += 1;
    }
    assert(params@.take(params@.len() as int) == params@);
    let ghost part1 = issue_views(issues@);
    let ghost ns = views(names@);
    assert(part1 + Seq::<IssueView>::empty() == part1);
    let mut k: usize = 0;
    while k < names.len()
        invariant
            k <= names.len(),
            ns == views(names@),
            issue_views(issues@) == part1 + spec_duplicates(ns.take(k as int)),
        decreases names.len() - k,
    {
        proof {
            assert(ns.take(k + 1).drop_last() == ns.take(k as int));
            assert(ns.take(k + 1).last() == ns[k as int]);
        }
        if holds(&names, k, names[k].as_str()) {
            let mut message = String::from_str("duplicate param name '");
            message.append(names[k].as_str());
            message.append("'");
            let ghost prev = spec_duplicates(ns.take(k as int));
            push_error(
                &mut issues,
                "params.json:/params",
                message.as_str(),
                "param names must be unique; duplicates make mappings ambiguous",
            );
            assert((part1 + prev).push(spec_duplicate(ns[k as int])) == part1 + prev.push(
                spec_duplicate(ns[k as int]),
            ));
        }
        k += 1;
    }
    assert(ns.take(ns.len() as int) == ns);
    let ghost part2 = issue_views(issues@);
    match &shape.shader_profiles {
        Some(shaders) => {
            assert(part2 + Seq::<IssueView>::empty() == part2);
            let mut j: usize = 0;
            while j < shaders.len()
                invariant
                    j <= shaders.len(),
                    ns == views(names@),
                    issue_views(issues@) == part2 + spec_shaders_findings(shaders@.take(j as int), ns),
                decreases shaders.len() - j,
            {
                proof {
                    assert(shaders@.take(j + 1).drop_last() == shaders@.take(j as int));
                    assert(shaders@.take(j + 1).last() == shaders@[j as int]);
                }
                let ghost prev = spec_shaders_findings(shaders@.take(j as int), ns);
                check_shader(&mut issues, &shaders[j], &names);
                proof {
                    let add = spec_shader_findings(shaders@[j as int], ns);
                    assert((part2 + prev) + add == part2 + (prev + add));
                }
                j += 1;
            }
            assert(shaders@.take(shaders@.len() as int) == shaders@);
        },
        None => {
            push_warn(
                &mut issues,
                "params.json:/shader_profiles",
                "missing or non-object 'shader_profiles'",
                "profiles are optional; omit if you don't need per-shader defaults",
            );
            assert(issue_views(issues@) =~= part2 + seq![
                spec_warn(
                    "params.json:/shader_profiles"@,
                    "missing or non-object 'shader_profiles'"@,
                    "profiles are optional; omit if you don't need per-shader defaults"@,
                ),
            ]);
        },
    }
    let ghost part3 = issue_views(issues@);
    let no_shaders: Vec<ShaderShape> = Vec::new();
    let shaders: &Vec<ShaderShape> = match &shape.shader_profiles {
        Some(s) => s,
        None => &no_shaders,
    };
    assert(shaders@ =~= spec_shaders(*shape));
    match &shape.active_shader_profiles {
        Some(actives) => {
            assert(part3 + Seq::<IssueView>::empty() == part3);
            let mut j: usize = 0;
            while j < actives.len()
                invariant
                    j <= actives.len(),
                    issue_views(issues@) == part3 + spec_actives_findings(
                        shaders@,
                        actives@.take(j as int),
                    ),
                decreases actives.len() - j,
            {
                proof {
                    assert(actives@.take(j + 1).drop_last() == actives@.take(j as int));
                    assert(actives@.take(j + 1).last() == actives@[j as int]);
                }
                let ghost prev = spec_actives_findings(shaders@, actives@.take(j as int));
                check_active(&mut issues, shaders, &actives[j]);
                proof {
                    let add = spec_active_findings(shaders@, actives@[j as int]);
                    assert((part3 + prev) + add == part3 + (prev + add));
                }
                j += 1;
            }
            assert(actives@.take(actives@.len() as int) == actives@);
        },
        None => {
            push_warn(
                &mut issues,
                "params.json:/active_shader_profiles",
                "missing or non-object 'active_shader_profiles'",
                "optional; if omitted, ShadeCore falls back to 'default' when available",
            );
            assert(issue_views(issues@) =~= part3 + seq![
                spec_warn(
                    "params.json:/active_shader_profiles"@,
                    "missing or non-object 'active_shader_profiles'"@,
                    "optional; if omitted, ShadeCore falls back to 'default' when available"@,
                ),
            ]);
        },
    }
    issues
}

/// The findings about the link between the recording settings and the
/// recording profiles: the profiles are missing; no profile is selected;
/// the selected profile does not exist.
pub open spec fn spec_validate_recording(active: Seq<char>, profiles: Option<Seq<Seq<char>>>) -> Seq<
    IssueView,
> {
    match profiles {
        None => seq![
            spec_error(
                "recording.profiles.json:/profiles"@,
                "missing or non-object 'profiles'"@,
                "expected: { \"profiles\": { \"1080p_prores\": {...}, ... } }"@,
            ),
        ],
        Some(ps) => if active.len() == 0 {
            seq![
                spec_warn(
                    "recording.json:/active_profile"@,
                    "missing or empty active_profile"@,
                    "set to one of: "@ + spec_join_set(ps.to_set()),
                ),
            ]
        } else if !ps.contains(active) {
            seq![
                spec_warn(
                    "recording.json:/active_profile"@,
                    "active_profile '"@ + active + "' not found"@,
                    "available: "@ + spec_join_set(ps.to_set()),
                ),
            ]
        } else {
            Seq::empty()
        },
    }
}

/// Checks that the recording settings select a recording profile that
/// exists. `active` is the selected name, empty when none is selected;
/// `profiles` are the names of the profiles, `None` when the profiles file
/// holds none.
pub fn validate_recording_profiles(active: &str, profiles: Option<&Vec<String>>) -> (r: Vec<
    ValidationIssue,
>)
    ensures
        issue_views(r@) == spec_validate_recording(
            active@,
            match profiles {
                Some(ps) => Some(views(ps@)),
                None => None,
            },
        ),
{
    let mut issues: Vec<ValidationIssue> = Vec::new();
    assert(issue_views(issues@) =~= Seq::<IssueView>::empty());
    let ps = match profiles {
        Some(ps) => ps,
        None => {
            push_error(
                &mut issues,
                "recording.profiles.json:/profiles",
                "missing or non-object 'profiles'",
                "expected: { \"profiles\": { \"1080p_prores\": {...}, ... } }",
            );
            assert(issue_views(issues@) =~= spec_validate_recording(active@, None));
            return issues;
        },
    };
    proof {
        assert(views(ps@).take(ps@.len() as int) == views(ps@));
    }
    if active.is_empty() {
        let mut hint = String::from_str("set to one of: ");
        hint.append(join_set(ps).as_str());
        push_warn(
            &mut issues,
            "recording.json:/active_profile",
            "missing or empty active_profile",
            hint.as_str(),
        );
        assert(issue_views(issues@) =~= spec_validate_recording(active@, Some(views(ps@))));
    } else if !holds(ps, ps.len(), active) {
        let mut message = String::from_str("active_profile '");
        message.append(active);
        message.append("' not found");
        let mut hint = String::from_str("available: ");
        hint.append(join_set(ps).as_str());
        push_warn(&mut issues, "recording.json:/active_profile", message.as_str(), hint.as_str());
        assert(issue_views(issues@) =~= spec_validate_recording(active@, Some(views(ps@))));
    }
    issues
}

} // verus!
