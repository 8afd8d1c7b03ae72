//! How version requirements on workspace-internal dependencies are kept,
//! rewritten or stripped when a release changes versions.

use vstd::prelude::*;

use crate::text::{
    decimal, digit_char, is_whitespace, push_char, push_decimal, push_str, starts_with, starts_with_chars, chars_of, trim,
    trim_chars, trim_str,
};
use crate::version::{version_text, Version};

verus! {

/// What to do with the version requirement of an internal dependency.
#[derive(Debug, Clone, Copy, PartialEq, Eq, Structural)]
pub enum InternalDependencyPolicy {
    /// Strip it when both sides are private, keep it otherwise.
    Auto,
    /// Always strip it.
    Strip,
    /// Always write it, in its current style or the default one.
    Update,
}

impl Default for InternalDependencyPolicy {
    fn default() -> (p: Self)
        ensures
            p == InternalDependencyPolicy::Auto,
    {
        InternalDependencyPolicy::Auto
    }
}

/// Whether a crate is published.
#[derive(Debug, Clone, Copy, PartialEq, Eq, Structural)]
pub enum Publication {
    Private,
    Publishable,
}

/// Which manifest a dependency entry belongs to.
#[derive(Debug, Clone, Copy, PartialEq, Eq, Structural)]
pub enum DependencyOwner {
    Member { publication: Publication },
    UnknownMember,
    Workspace,
}

/// The facts the `Auto` policy decides on.
#[derive(Debug, Clone, Copy, PartialEq, Eq, Structural)]
pub struct InternalDependencyContext {
    pub owner: DependencyOwner,
    pub dependency_publication: Publication,
    pub all_members_private: bool,
}

/// The comparison operator of a requirement.
#[derive(Debug, Clone, Copy, PartialEq, Eq, Structural)]
pub enum RequirementOperator {
    Bare,
    GreaterEq,
    LessEq,
    Caret,
    Tilde,
    Exact,
    Greater,
    Less,
}

/// How many version components a requirement names.
#[derive(Debug, Clone, Copy, PartialEq, Eq, Structural)]
pub enum VersionPrecision {
    Major,
    Minor,
    Patch,
}

/// The shape of a single-comparator requirement: its operator and how many
/// components it names.
#[derive(Debug, Clone, Copy, PartialEq, Eq, Structural)]
pub struct RequirementStyle {
    operator: RequirementOperator,
    precision: VersionPrecision,
}

/// A requirement that is not a single comparator.
#[derive(Debug, Clone, PartialEq, Eq)]
pub struct RequirementStyleParseError {
    requirement: String,
}

// ---------------------------------------------------------------------------
// Specifications
// ---------------------------------------------------------------------------

/// `Auto` strips a requirement when both the owner and the dependency are
/// private; for the workspace manifest, when every member is private.
pub open spec fn strips_when_auto(ctx: InternalDependencyContext) -> bool {
    match ctx.owner {
        DependencyOwner::Member { publication } => publication == Publication::Private
            && ctx.dependency_publication == Publication::Private,
        DependencyOwner::Workspace => ctx.all_members_private && ctx.dependency_publication
            == Publication::Private,
        DependencyOwner::UnknownMember => false,
    }
}

/// The style a requirement should have after the release, `None` to strip it.
pub open spec fn desired_style(
    policy: InternalDependencyPolicy,
    ctx: InternalDependencyContext,
    current: Option<RequirementStyle>,
) -> Option<RequirementStyle> {
    match policy {
        InternalDependencyPolicy::Strip => None,
        InternalDependencyPolicy::Update => Some(
            match current {
                Some(s) => s,
                None => default_style(),
            },
        ),
        InternalDependencyPolicy::Auto => if strips_when_auto(ctx) {
            None
        } else {
            current
        },
    }
}

/// Under the `Auto` policy a requirement is stripped only when the
/// dependency is private and so is whoever declares it: a private member, or
/// the workspace manifest when every member is private. Everywhere else the
/// current requirement is kept as it is.
pub proof fn lemma_auto_policy(ctx: InternalDependencyContext, current: Option<RequirementStyle>)
    ensures
        ctx.dependency_publication == Publication::Publishable ==> desired_style(
            InternalDependencyPolicy::Auto,
            ctx,
            current,
        ) == current,
        ctx.owner == DependencyOwner::UnknownMember ==> desired_style(InternalDependencyPolicy::Auto, ctx, current)
            == current,
        ctx.owner == (DependencyOwner::Member { publication: Publication::Publishable }) ==> desired_style(
            InternalDependencyPolicy::Auto,
            ctx,
            current,
        ) == current,
        ctx.owner == DependencyOwner::Workspace && !ctx.all_members_private ==> desired_style(
            InternalDependencyPolicy::Auto,
            ctx,
            current,
        ) == current,
        ctx.dependency_publication == Publication::Private && (ctx.owner == (DependencyOwner::Member {
            publication: Publication::Private,
        }) || (ctx.owner == DependencyOwner::Workspace && ctx.all_members_private)) ==> desired_style(
            InternalDependencyPolicy::Auto,
            ctx,
            current,
        ) is None,
{
}

/// `Strip` always strips; `Update` always writes a requirement, keeping the
/// current style when there is one.
pub proof fn lemma_strip_and_update(ctx: InternalDependencyContext, current: Option<RequirementStyle>)
    ensures
        desired_style(InternalDependencyPolicy::Strip, ctx, current) is None,
        desired_style(InternalDependencyPolicy::Update, ctx, current) is Some,
        current is Some ==> desired_style(InternalDependencyPolicy::Update, ctx, current) == current,
{
}

/// The default style: a bare requirement naming all three components.
pub closed spec fn default_style() -> RequirementStyle {
    RequirementStyle { operator: RequirementOperator::Bare, precision: VersionPrecision::Patch }
}

/// The default style writes a bare requirement naming all three components.
pub proof fn lemma_default_style()
    ensures
        default_style().operator() == RequirementOperator::Bare,
        default_style().precision() == VersionPrecision::Patch,
{
}

/// A style is its operator and its precision: two styles that agree on both
/// are equal.
pub proof fn lemma_style_ext(a: RequirementStyle, b: RequirementStyle)
    requires
        a.operator() == b.operator(),
        a.precision() == b.precision(),
    ensures
        a == b,
{
}

/// The operator a (trimmed) requirement starts with.
pub open spec fn operator_of(s: Seq<char>) -> RequirementOperator {
    let t = trim(s);
    if starts_with(t, ">="@) {
        RequirementOperator::GreaterEq
    } else if starts_with(t, "<="@) {
        RequirementOperator::LessEq
    } else if starts_with(t, "^"@) {
        RequirementOperator::Caret
    } else if starts_with(t, "~"@) {
        RequirementOperator::Tilde
    } else if starts_with(t, "="@) {
        RequirementOperator::Exact
    } else if starts_with(t, ">"@) {
        RequirementOperator::Greater
    } else if starts_with(t, "<"@) {
        RequirementOperator::Less
    } else {
        RequirementOperator::Bare
    }
}

pub open spec fn operator_prefix(op: RequirementOperator) -> Seq<char> {
    match op {
        RequirementOperator::Bare => ""@,
        RequirementOperator::GreaterEq => ">="@,
        RequirementOperator::LessEq => "<="@,
        RequirementOperator::Caret => "^"@,
        RequirementOperator::Tilde => "~"@,
        RequirementOperator::Exact => "="@,
        RequirementOperator::Greater => ">"@,
        RequirementOperator::Less => "<"@,
    }
}

/// The precision of a comparator `(major, minor, patch)`.
pub open spec fn precision_of(c: (u64, Option<u64>, Option<u64>)) -> VersionPrecision {
    if c.2 is Some {
        VersionPrecision::Patch
    } else if c.1 is Some {
        VersionPrecision::Minor
    } else {
        VersionPrecision::Major
    }
}

pub open spec fn precision_text(p: VersionPrecision, v: Version) -> Seq<char> {
    match p {
        VersionPrecision::Major => decimal(v.major as nat),
        VersionPrecision::Minor => decimal(v.major as nat) + seq!['.'] + decimal(v.minor as nat),
        VersionPrecision::Patch => version_text(v),
    }
}

/// The requirement a style writes for a version.
pub open spec fn style_text(style: RequirementStyle, v: Version) -> Seq<char> {
    operator_prefix(style.operator()) + precision_text(style.precision(), v)
}

/// The message of a parse error for `requirement`.
pub open spec fn parse_error_text(requirement: Seq<char>) -> Seq<char> {
    "unsupported internal dependency version requirement `"@ + requirement + "`"@
}

/// What `semver::VersionReq::parse` yields for a text: `None` when the text is
/// rejected, else `(major, minor, patch)` of each of its comparators, in
/// order. It depends on the text alone.
pub uninterp spec fn spec_semver_parse_req(text: Seq<char>) -> Option<Seq<(u64, Option<u64>, Option<u64>)>>;

/// The operator and precision of a requirement's style, given the
/// comparators `semver` parsed from its trimmed text: a bare operator naming
/// all three components for a blank requirement, an error (carrying the
/// trimmed text) unless there is exactly one comparator; else the operator
/// the text starts with and the precision of the comparator.
pub open spec fn style_from_comparators(
    requirement: Seq<char>,
    comparators: Option<Seq<(u64, Option<u64>, Option<u64>)>>,
) -> Result<(RequirementOperator, VersionPrecision), Seq<char>> {
    let t = trim(requirement);
    if t.len() == 0 {
        Ok((RequirementOperator::Bare, VersionPrecision::Patch))
    } else {
        match comparators {
            None => Err(t),
            Some(cs) => if cs.len() != 1 {
                Err(t)
            } else {
                Ok((operator_of(t), precision_of(cs[0])))
            },
        }
    }
}

/// The operator and precision of a requirement's style as
/// `RequirementStyle::parse` computes them; an error carries the trimmed
/// requirement.
pub open spec fn parsed_style(requirement: Seq<char>) -> Result<(RequirementOperator, VersionPrecision), Seq<char>> {
    style_from_comparators(requirement, spec_semver_parse_req(trim(requirement)))
}

impl RequirementStyle {
    /// The operator the style writes.
    pub closed spec fn operator(self) -> RequirementOperator {
        self.operator
    }

    /// How many version components the style writes.
    pub closed spec fn precision(self) -> VersionPrecision {
        self.precision
    }
}

/// `s` holds no whitespace, as no identifier of a semantic version does.
pub open spec fn no_whitespace(s: Seq<char>) -> bool {
    forall|i: int| 0 <= i < s.len() ==> !is_whitespace(#[trigger] s[i])
}

/// `c` is a decimal digit.
pub open spec fn is_digit(c: char) -> bool {
    '0' <= c && c <= '9'
}

proof fn lemma_decimal_digits(n: nat)
    ensures
        decimal(n).len() > 0,
        is_digit(decimal(n)[0]),
        is_digit(decimal(n).last()),
    decreases n,
{
    if n >= 10 {
        lemma_decimal_digits(n / 10);
        assert(decimal(n) == decimal(n / 10).push(digit_char(n % 10)));
        assert(decimal(n)[0] == decimal(n / 10)[0]);
    }
}

/// A text that neither begins nor ends with whitespace is its own trim.
proof fn lemma_trim_unchanged(s: Seq<char>)
    requires
        s.len() > 0,
        !is_whitespace(s[0]),
        !is_whitespace(s.last()),
    ensures
        trim(s) == s,
{
}

/// The text a precision writes starts with a digit, and ends with a digit or
/// the last character of the version's pre-release or build.
proof fn lemma_precision_text_ends(p: VersionPrecision, v: Version)
    requires
        no_whitespace(v.pre@),
        no_whitespace(v.build@),
    ensures
        precision_text(p, v).len() > 0,
        is_digit(precision_text(p, v)[0]),
        !is_whitespace(precision_text(p, v).last()),
{
    lemma_decimal_digits(v.major as nat);
    lemma_decimal_digits(v.minor as nat);
    lemma_decimal_digits(v.patch as nat);
    let t = precision_text(p, v);
    match p {
        VersionPrecision::Major => {},
        VersionPrecision::Minor => {
            assert(t[0] == decimal(v.major as nat)[0]);
        },
        VersionPrecision::Patch => {
            let core = decimal(v.major as nat) + seq!['.'] + decimal(v.minor as nat) + seq!['.'] + decimal(
                v.patch as nat,
            );
            let pre_part = if v.pre@.len() == 0 {
                Seq::<char>::empty()
            } else {
                seq!['-'] + v.pre@
            };
            let build_part = if v.build@.len() == 0 {
                Seq::<char>::empty()
            } else {
                seq!['+'] + v.build@
            };
            assert(t == core + pre_part + build_part);
            assert(t[0] == decimal(v.major as nat)[0]);
            if v.build@.len() > 0 {
                assert(t.last() == v.build@.last());
                assert(!is_whitespace(v.build@[v.build@.len() - 1]));
            } else if v.pre@.len() > 0 {
                assert(t.last() == v.pre@.last());
                assert(!is_whitespace(v.pre@[v.pre@.len() - 1]));
            } else {
                assert(t.last() == decimal(v.patch as nat).last());
            }
        },
    }
}

/// An operator written before a version is read back as the same operator:
/// the two-character operators `>=` and `<=` are recognised before `>`,
/// `<` and `=`.
pub proof fn lemma_operator_round_trip(op: RequirementOperator, rest: Seq<char>)
    requires
        rest.len() > 0,
        is_digit(rest[0]),
        !is_whitespace(rest.last()),
    ensures
        trim(operator_prefix(op) + rest) == operator_prefix(op) + rest,
        operator_of(operator_prefix(op) + rest) == op,
{
    reveal_strlit(">=");
    reveal_strlit("<=");
    reveal_strlit("^");
    reveal_strlit("~");
    reveal_strlit("=");
    reveal_strlit(">");
    reveal_strlit("<");
    reveal_strlit("");
    let pre = operator_prefix(op);
    let t = pre + rest;
    assert(t.last() == rest.last());
    if pre.len() == 0 {
        assert(t[0] == rest[0]);
    } else {
        assert(t[0] == pre[0]);
    }
    lemma_trim_unchanged(t);
    if pre.len() == 0 {
        assert(t[0] == rest[0]);
        assert(!starts_with(t, ">="@)) by {
            if t.len() >= 2 {
                assert(t.take(2)[0] == t[0]);
            }
        }
        assert(!starts_with(t, "<="@)) by {
            if t.len() >= 2 {
                assert(t.take(2)[0] == t[0]);
            }
        }
        assert(!starts_with(t, "^"@)) by { assert(t.take(1)[0] == t[0]); }
        assert(!starts_with(t, "~"@)) by { assert(t.take(1)[0] == t[0]); }
        assert(!starts_with(t, "="@)) by { assert(t.take(1)[0] == t[0]); }
        assert(!starts_with(t, ">"@)) by { assert(t.take(1)[0] == t[0]); }
        assert(!starts_with(t, "<"@)) by { assert(t.take(1)[0] == t[0]); }
    } else if pre.len() == 1 {
        assert(t[0] == pre[0]);
        assert(t[1] == rest[0]);
        assert(t.take(1) =~= pre);
        assert(!starts_with(t, ">="@)) by { assert(t.take(2)[1] == t[1]); }
        assert(!starts_with(t, "<="@)) by { assert(t.take(2)[1] == t[1]); }
        assert(!starts_with(t, "^"@) || pre == "^"@) by { assert(t.take(1)[0] == t[0]); }
        assert(!starts_with(t, "~"@) || pre == "~"@) by { assert(t.take(1)[0] == t[0]); }
        assert(!starts_with(t, "="@) || pre == "="@) by { assert(t.take(1)[0] == t[0]); }
        assert(!starts_with(t, ">"@) || pre == ">"@) by { assert(t.take(1)[0] == t[0]); }
    } else {
        assert(t.take(2) =~= pre);
        assert(t[0] == pre[0]);
    }
}

/// Writing a style for a version and reading the requirement back gives the
/// same style, whenever `semver` reads the written requirement as a single
/// comparator naming as many components as the style writes.
pub proof fn lemma_style_round_trip(style: RequirementStyle, v: Version, c: (u64, Option<u64>, Option<u64>))
    requires
        precision_of(c) == style.precision(),
        no_whitespace(v.pre@),
        no_whitespace(v.build@),
    ensures
        style_from_comparators(style_text(style, v), Some(seq![c])) == Ok::<
            (RequirementOperator, VersionPrecision),
            Seq<char>,
        >((style.operator(), style.precision())),
{
    lemma_precision_text_ends(style.precision(), v);
    lemma_operator_round_trip(style.operator(), precision_text(style.precision(), v));
}

// ---------------------------------------------------------------------------
// Trusted call
// ---------------------------------------------------------------------------

/// `semver::VersionReq::parse`, each comparator taken apart into its
/// `(major, minor, patch)`; the contract only names the result
/// (`spec_semver_parse_req`).
#[verifier::external_body]
fn semver_parse_req(text: &str) -> (r: Option<Vec<(u64, Option<u64>, Option<u64>)>>)
    ensures
        match r {
            None => spec_semver_parse_req(text@) is None,
            Some(v) => spec_semver_parse_req(text@) == Some(v@),
        },
{
    semver::VersionReq::parse(text).ok().map(
        |req| req.comparators.iter().map(|c| (c.major, c.minor, c.patch)).collect(),
    )
}

// ---------------------------------------------------------------------------
// Implementation
// ---------------------------------------------------------------------------

impl Publication {
    /// `Private` for a private crate, `Publishable` otherwise.
    pub fn from_private(private: bool) -> (p: Publication)
        ensures
            p == (if private {
                Publication::Private
            } else {
                Publication::Publishable
            }),
    {
        if private {
            Publication::Private
        } else {
            Publication::Publishable
        }
    }

    /// Whether the crate is private.
    pub fn is_private(self) -> (r: bool)
        ensures
            r == (self == Publication::Private),
    {
        match self {
            Publication::Private => true,
            Publication::Publishable => false,
        }
    }
}

impl InternalDependencyContext {
    /// Whether the `Auto` policy strips the requirement.
    pub fn should_strip_when_auto(self) -> (r: bool)
        ensures
            r == strips_when_auto(self),
            r ==> self.dependency_publication == Publication::Private,
            self.owner == DependencyOwner::Workspace ==> (r <==> self.all_members_private
                && self.dependency_publication == Publication::Private),
            self.owner == DependencyOwner::UnknownMember ==> !r,
    {
        match self.owner {
            DependencyOwner::Member { publication } => publication.is_private()
                && self.dependency_publication.is_private(),
            DependencyOwner::Workspace => self.all_members_private
                && self.dependency_publication.is_private(),
            DependencyOwner::UnknownMember => false,
        }
    }
}

impl RequirementOperator {
    /// The operator a requirement starts with, after trimming; `Bare` when
    /// it starts with none.
    pub fn parse(requirement: &[char]) -> (op: RequirementOperator)
        ensures
            op == operator_of(requirement@),
    {
        let t = trim_chars(requirement);
        let s = t.as_slice();
        if starts_with_chars(s, ">=") {
            RequirementOperator::GreaterEq
        } else if starts_with_chars(s, "<=") {
            RequirementOperator::LessEq
        } else if starts_with_chars(s, "^") {
            RequirementOperator::Caret
        } else if starts_with_chars(s, "~") {
            RequirementOperator::Tilde
        } else if starts_with_chars(s, "=") {
            RequirementOperator::Exact
        } else if starts_with_chars(s, ">") {
            RequirementOperator::Greater
        } else if starts_with_chars(s, "<") {
            RequirementOperator::Less
        } else {
            RequirementOperator::Bare
        }
    }

    /// The text of the operator.
    pub fn prefix(self) -> (s: &'static str)
        ensures
            s@ == operator_prefix(self),
    {
        match self {
            RequirementOperator::Bare => "",
            RequirementOperator::GreaterEq => ">=",
            RequirementOperator::LessEq => "<=",
            RequirementOperator::Caret => "^",
            RequirementOperator::Tilde => "~",
            RequirementOperator::Exact => "=",
            RequirementOperator::Greater => ">",
            RequirementOperator::Less => "<",
        }
    }
}

impl VersionPrecision {
    fn from_comparator(c: (u64, Option<u64>, Option<u64>)) -> (p: VersionPrecision)
        ensures
            p == precision_of(c),
    {
        if c.2.is_some() {
            VersionPrecision::Patch
        } else if c.1.is_some() {
            VersionPrecision::Minor
        } else {
            VersionPrecision::Major
        }
    }

    fn render(self, version: &Version) -> (s: String)
        ensures
            s@ == precision_text(self, *version),
    {
        match self {
            VersionPrecision::Major => {
                let mut s = String::new();
                push_decimal(&mut s, version.major);
                s
            },
            VersionPrecision::Minor => {
                let mut s = String::new();
                push_decimal(&mut s, version.major);
                push_char(&mut s, '.');
                push_decimal(&mut s, version.minor);
                s
            },
            VersionPrecision::Patch => version.to_string(),
        }
    }
}

impl RequirementStyleParseError {
    fn unsupported(requirement: &str) -> (e: RequirementStyleParseError)
        ensures
            e.requirement@ == requirement@,
    {
        RequirementStyleParseError { requirement: crate::text::string_from_chars(chars_of(requirement).as_slice()) }
    }

    /// The requirement that was rejected.
    pub closed spec fn requirement_view(&self) -> Seq<char> {
        self.requirement@
    }

    /// The message of the error (what `Display` shows).
    pub fn to_string(&self) -> (s: String)
        ensures
            s@ == parse_error_text(self.requirement_view()),
    {
        let mut s = String::new();
        push_str(&mut s, "unsupported internal dependency version requirement `");
        push_str(&mut s, self.requirement.as_str());
        push_str(&mut s, "`");
        s
    }
}

impl Default for RequirementStyle {
    fn default() -> (s: Self)
        ensures
            s == default_style(),
            s.operator() == RequirementOperator::Bare,
            s.precision() == VersionPrecision::Patch,
    {
        RequirementStyle { operator: RequirementOperator::Bare, precision: VersionPrecision::Patch }
    }
}

impl RequirementStyle {
    /// The style of a single-comparator requirement such as `^0.4` or
    /// `=1.2.3`. A blank requirement has the default style; anything `semver`
    /// rejects, or that has more than one comparator, is an error.
    pub fn parse(requirement: &str) -> (r: Result<RequirementStyle, RequirementStyleParseError>)
        ensures
            match parsed_style(requirement@) {
                Ok((op, p)) => r matches Ok(style) && style.operator() == op && style.precision() == p,
                Err(t) => r matches Err(e) && e.requirement_view() == t,
            },
    {
        let trimmed = trim_str(requirement);
        let comparators = if trimmed.as_str().is_empty() {
            None
        } else {
            semver_parse_req(trimmed.as_str())
        };
        RequirementStyle::from_comparators(requirement, comparators)
    }

    /// The style of a requirement given what `semver` parsed from its trimmed
    /// text (ignored for a blank requirement).
    pub fn from_comparators(
        requirement: &str,
        comparators: Option<Vec<(u64, Option<u64>, Option<u64>)>>,
    ) -> (r: Result<RequirementStyle, RequirementStyleParseError>)
        ensures
            match style_from_comparators(
                requirement@,
                match comparators {
                    None => None,
                    Some(v) => Some(v@),
                },
            ) {
                Ok((op, p)) => r matches Ok(style) && style.operator() == op && style.precision() == p,
                Err(t) => r matches Err(e) && e.requirement_view() == t,
            },
    {
        let chars = chars_of(requirement);
        let trimmed = trim_chars(chars.as_slice());
        if trimmed.len() == 0 {
            return Ok(RequirementStyle::default());
        }
        let text = crate::text::string_from_chars(trimmed.as_slice());
        match comparators {
            None => Err(RequirementStyleParseError::unsupported(text.as_str())),
            Some(cs) => {
                if cs.len() != 1 {
                    Err(RequirementStyleParseError::unsupported(text.as_str()))
                } else {
                    Ok(
                        RequirementStyle {
                            operator: RequirementOperator::parse(trimmed.as_slice()),
                            precision: VersionPrecision::from_comparator(cs[0]),
                        },
                    )
                }
            },
        }
    }

    /// The requirement this style writes for `version`, such as `^0.5` for a
    /// caret style naming two components.
    pub fn render(self, version: &Version) -> (s: String)
        ensures
            s@ == style_text(self, *version),
    {
        let mut s = String::new();
        push_str(&mut s, self.operator.prefix());
        let tail = self.precision.render(version);
        push_str(&mut s, tail.as_str());
        s
    }
}

/// The style the requirement of an internal dependency should have after the
/// release, `None` to strip the requirement.
pub fn desired_requirement_style(
    policy: InternalDependencyPolicy,
    context: InternalDependencyContext,
    current_style: Option<RequirementStyle>,
) -> (r: Option<RequirementStyle>)
    ensures
        r == desired_style(policy, context, current_style),
        policy == InternalDependencyPolicy::Auto && context.owner == DependencyOwner::Workspace
            && !context.all_members_private ==> r == current_style,
        policy == InternalDependencyPolicy::Auto && context.dependency_publication == Publication::Publishable
            ==> r == current_style,
{
    match policy {
        InternalDependencyPolicy::Strip => None,
        InternalDependencyPolicy::Update => Some(
            match current_style {
                Some(s) => s,
                None => RequirementStyle::default(),
            },
        ),
        InternalDependencyPolicy::Auto => {
            if context.should_strip_when_auto() {
                None
            } else {
                current_style
            }
        },
    }
}

} // verus!
