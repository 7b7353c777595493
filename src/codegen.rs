//! Definition-time checks and layout of derived probes.
//!
//! A type declaration, as read from its source, is checked against the
//! attribute rules and turned into a plan: which fields are listed as
//! records, under which labels and with which editor, or which single field a
//! transparent wrapper stands for. A declaration that breaks a rule yields the
//! error to report at the offending declaration.

use crate::VariantsStyle;
use convert_case::Casing;
use vstd::prelude::*;

verus! {

/// The editor chosen for a field by its attribute.
#[derive(Clone, Copy, Debug, PartialEq, Eq, Structural)]
pub enum FieldProbeKind {
    Range,
    With,
    ProbeAs,
    Multiline,
    ToggleSwitch,
    Frozen,
    Rgb,
    Rgba,
    RgbaPremultiplied,
    RgbaUnmultiplied,
}

/// The message reported for an editor attribute on a skipped field.
pub open spec fn skipped_message(kind: FieldProbeKind) -> &'static str {
    match kind {
        FieldProbeKind::With => "Cannot use `with` attribute for skipped field",
        FieldProbeKind::ProbeAs => "Cannot use `as` attribute for skipped field",
        FieldProbeKind::Range => "Cannot use `range` attribute for skipped field",
        FieldProbeKind::Multiline => "Cannot use `multiline` attribute for skipped field",
        FieldProbeKind::ToggleSwitch => "Cannot use `toggle_switch` attribute for skipped field",
        FieldProbeKind::Frozen => "Cannot use `frozen` attribute for skipped field",
        FieldProbeKind::Rgb => "Cannot use `rgb` attribute for skipped field",
        FieldProbeKind::Rgba => "Cannot use `rgba` attribute for skipped field",
        FieldProbeKind::RgbaPremultiplied => "Cannot use `rgba_premultiplied` attribute for skipped field",
        FieldProbeKind::RgbaUnmultiplied => "Cannot use `rgba_unmultiplied` attribute for skipped field",
    }
}

impl FieldProbeKind {
    pub fn error_when_skipped(&self) -> (r: &'static str)
        ensures
            r == skipped_message(*self),
    {
        match self {
            FieldProbeKind::With => "Cannot use `with` attribute for skipped field",
            FieldProbeKind::ProbeAs => "Cannot use `as` attribute for skipped field",
            FieldProbeKind::Range => "Cannot use `range` attribute for skipped field",
            FieldProbeKind::Multiline => "Cannot use `multiline` attribute for skipped field",
            FieldProbeKind::ToggleSwitch => "Cannot use `toggle_switch` attribute for skipped field",
            FieldProbeKind::Frozen => "Cannot use `frozen` attribute for skipped field",
            FieldProbeKind::Rgb => "Cannot use `rgb` attribute for skipped field",
            FieldProbeKind::Rgba => "Cannot use `rgba` attribute for skipped field",
            FieldProbeKind::RgbaPremultiplied => "Cannot use `rgba_premultiplied` attribute for skipped field",
            FieldProbeKind::RgbaUnmultiplied => "Cannot use `rgba_unmultiplied` attribute for skipped field",
        }
    }
}

/// The case that `rename_all` converts field and variant names to.
#[derive(Clone, Copy, Debug, PartialEq, Eq, Structural)]
pub enum RenameCase {
    SnakeCase,
    CamelCase,
    PascalCase,
    ScreamingSnakeCase,
    UpperSnakeCase,
    KebabCase,
    TrainCase,
}

/// What converting `ident` to `case` gives.
pub uninterp spec fn case_converted(ident: Seq<char>, case: RenameCase) -> Seq<char>;

/// Relies on `convert_case::Casing::to_case`: the converted identifier, a
/// function of the identifier and the case alone.
#[verifier::external_body]
fn to_case(ident: &str, case: RenameCase) -> (r: String)
    ensures
        r@ == case_converted(ident@, case),
{
    ident.to_case(match case {
        RenameCase::SnakeCase => convert_case::Case::Snake,
        RenameCase::CamelCase => convert_case::Case::Camel,
        RenameCase::PascalCase => convert_case::Case::Pascal,
        RenameCase::ScreamingSnakeCase => convert_case::Case::ScreamingSnake,
        RenameCase::UpperSnakeCase => convert_case::Case::UpperSnake,
        RenameCase::KebabCase => convert_case::Case::Kebab,
        RenameCase::TrainCase => convert_case::Case::Train,
    })
}

impl RenameCase {
    /// `ident` converted to this case.
    pub fn rename(&self, ident: &str) -> (r: String)
        ensures
            r@ == case_converted(ident@, *self),
    {
        to_case(ident, *self)
    }
}

pub open spec fn opt_text(s: Option<String>) -> Option<Seq<char>> {
    match s {
        Some(s) => Some(s@),
        None => None,
    }
}

/// The label of a field or variant: its explicit name, else its identifier
/// converted to the renaming case if there is one; a field without
/// identifier and without name is unlabelled.
pub open spec fn name_text(
    name: Option<Seq<char>>,
    ident: Option<Seq<char>>,
    rename: Option<RenameCase>,
) -> Seq<char> {
    match name {
        Some(n) => n,
        None => match ident {
            None => Seq::empty(),
            Some(id) => match rename {
                None => id,
                Some(case) => case_converted(id, case),
            },
        },
    }
}

pub fn make_name(name: Option<String>, ident: Option<&str>, rename: Option<RenameCase>) -> (r:
    String)
    ensures
        r@ == name_text(
            opt_text(name),
            match ident {
                Some(i) => Some(i@),
                None => None,
            },
            rename,
        ),
{
    match name {
        Some(name) => name,
        None => match ident {
            None => String::new(),
            Some(ident) => match rename {
                None => ident.to_owned(),
                Some(case) => case.rename(ident),
            },
        },
    }
}

/// The probe attributes of one field.
pub struct FieldAttributes {
    pub skip: bool,
    pub name: Option<String>,
    pub kind: Option<FieldProbeKind>,
}

/// A field of a struct or variant: its identifier (none in a tuple) and its
/// attributes.
pub struct FieldDecl {
    pub ident: Option<String>,
    pub attributes: FieldAttributes,
}

/// A rule broken by a declaration.
#[derive(Clone, Copy, Debug, PartialEq, Eq, Structural)]
pub enum DeriveError {
    /// A skipped field has a name.
    NamedSkippedField,
    /// A skipped field has an editor attribute.
    SkippedFieldKind(FieldProbeKind),
    /// A transparent struct has other than one field that is not skipped.
    TransparentStruct,
    /// A transparent variant has other than one field that is not skipped.
    TransparentVariant,
    /// Tags were given to a struct.
    TagsOnStruct,
    /// The type is a union.
    Union,
}

pub open spec fn error_message(e: DeriveError) -> &'static str {
    match e {
        DeriveError::NamedSkippedField => "Cannot name skipped field",
        DeriveError::SkippedFieldKind(kind) => skipped_message(kind),
        DeriveError::TransparentStruct => "Transparent struct must have exactly one non-skipped field",
        DeriveError::TransparentVariant => "Transparent variant must have exactly one non-skipped field",
        DeriveError::TagsOnStruct => "Tags may be specified only for enums",
        DeriveError::Union => "EguiProbe can only be derived for structs and enums",
    }
}

impl DeriveError {
    /// The diagnostic shown at the declaration.
    pub fn message(&self) -> (r: &'static str)
        ensures
            r == error_message(*self),
    {
        match self {
            DeriveError::NamedSkippedField => "Cannot name skipped field",
            DeriveError::SkippedFieldKind(kind) => kind.error_when_skipped(),
            DeriveError::TransparentStruct => "Transparent struct must have exactly one non-skipped field",
            DeriveError::TransparentVariant => "Transparent variant must have exactly one non-skipped field",
            DeriveError::TagsOnStruct => "Tags may be specified only for enums",
            DeriveError::Union => "EguiProbe can only be derived for structs and enums",
        }
    }
}

/// The error of a field's attributes, if they break a rule: a skipped field
/// takes no name and no editor.
pub open spec fn field_error(f: FieldDecl) -> Option<DeriveError> {
    if f.attributes.skip {
        if f.attributes.name is Some {
            Some(DeriveError::NamedSkippedField)
        } else if f.attributes.kind is Some {
            Some(DeriveError::SkippedFieldKind(f.attributes.kind->Some_0))
        } else {
            None
        }
    } else {
        None
    }
}

/// The editor of a field that is not skipped: the field's position among all
/// fields (its binding) and the editor its attribute chose.
#[derive(Clone, Copy, Debug, PartialEq, Eq, Structural)]
pub struct FieldProbe {
    pub index: usize,
    pub kind: Option<FieldProbeKind>,
}

fn field_check(field: &FieldDecl) -> (r: Option<DeriveError>)
    ensures
        r == field_error(*field),
{
    if field.attributes.skip {
        if field.attributes.name.is_some() {
            return Some(DeriveError::NamedSkippedField);
        }
        if let Some(kind) = field.attributes.kind {
            return Some(DeriveError::SkippedFieldKind(kind));
        }
    }
    None
}

/// The label of a field, or `None` for a skipped one.
pub fn field_name(field: &FieldDecl, rename: Option<RenameCase>) -> (r: Result<
    Option<String>,
    DeriveError,
>)
    ensures
        match field_error(*field) {
            Some(e) => r == Err::<Option<String>, DeriveError>(e),
            None => if field.attributes.skip {
                r == Ok::<Option<String>, DeriveError>(None)
            } else {
                r is Ok && r->Ok_0 is Some && r->Ok_0->Some_0@ == name_text(
                    opt_text(field.attributes.name),
                    opt_text(field.ident),
                    rename,
                )
            },
        },
{
    if let Some(e) = field_check(field) {
        return Err(e);
    }
    if field.attributes.skip {
        return Ok(None);
    }
    let name = match &field.attributes.name {
        Some(n) => Some(n.clone()),
        None => None,
    };
    let ident = match &field.ident {
        Some(i) => Some(i.as_str()),
        None => None,
    };
    Ok(Some(make_name(name, ident, rename)))
}

/// The editor of the field at `index`, or `None` for a skipped one.
pub fn field_probe(index: usize, field: &FieldDecl) -> (r: Result<Option<FieldProbe>, DeriveError>)
    ensures
        match field_error(*field) {
            Some(e) => r == Err::<Option<FieldProbe>, DeriveError>(e),
            None => if field.attributes.skip {
                r == Ok::<Option<FieldProbe>, DeriveError>(None)
            } else {
                r == Ok::<Option<FieldProbe>, DeriveError>(
                    Some(FieldProbe { index, kind: field.attributes.kind }),
                )
            },
        },
{
    if let Some(e) = field_check(field) {
        return Err(e);
    }
    if field.attributes.skip {
        return Ok(None);
    }
    Ok(Some(FieldProbe { index, kind: field.attributes.kind }))
}

/// The first error of a sequence of checks, in order.
pub open spec fn first_some(errors: Seq<Option<DeriveError>>) -> Option<DeriveError>
    decreases errors.len(),
{
    if errors.len() == 0 {
        None
    } else {
        match first_some(errors.drop_last()) {
            Some(e) => Some(e),
            None => errors.last(),
        }
    }
}

proof fn lemma_first_some_prefix(errors: Seq<Option<DeriveError>>, i: int)
    requires
        0 <= i <= errors.len(),
        first_some(errors.subrange(0, i)) is Some,
    ensures
        first_some(errors) == first_some(errors.subrange(0, i)),
    decreases errors.len() - i,
{
    if i < errors.len() {
        lemma_first_some_step(errors, i);
        lemma_first_some_prefix(errors, i + 1);
        assert(errors.subrange(0, i + 1).drop_last() =~= errors.subrange(0, i));
    } else {
        assert(errors.subrange(0, i) =~= errors);
    }
}

proof fn lemma_first_some_step(errors: Seq<Option<DeriveError>>, i: int)
    requires
        0 <= i < errors.len(),
    ensures
        first_some(errors.subrange(0, i + 1)) == match first_some(errors.subrange(0, i)) {
            Some(e) => Some(e),
            None => errors[i],
        },
{
    assert(errors.subrange(0, i + 1).drop_last() =~= errors.subrange(0, i));
}

/// The first field error among `fields`.
pub open spec fn fields_error(fields: Seq<FieldDecl>) -> Option<DeriveError> {
    first_some(fields.map_values(|f: FieldDecl| field_error(f)))
}

/// The editors of the fields that are not skipped, in order.
pub open spec fn probes_of(fields: Seq<FieldDecl>) -> Seq<FieldProbe>
    decreases fields.len(),
{
    if fields.len() == 0 {
        Seq::empty()
    } else if fields.last().attributes.skip {
        probes_of(fields.drop_last())
    } else {
        probes_of(fields.drop_last()).push(
            FieldProbe { index: (fields.len() - 1) as usize, kind: fields.last().attributes.kind },
        )
    }
}

/// The labels of the fields that are not skipped, in order.
pub open spec fn names_of(fields: Seq<FieldDecl>, rename: Option<RenameCase>) -> Seq<Seq<char>>
    decreases fields.len(),
{
    if fields.len() == 0 {
        Seq::empty()
    } else if fields.last().attributes.skip {
        names_of(fields.drop_last(), rename)
    } else {
        names_of(fields.drop_last(), rename).push(
            name_text(opt_text(fields.last().attributes.name), opt_text(fields.last().ident), rename),
        )
    }
}

/// What a struct, or the active variant of an enum, shows below its row.
pub enum InnerPlan {
    /// A transparent wrapper: its one field stands in its place, with no
    /// record of its own.
    Transparent(FieldProbe),
    /// One record per field that is not skipped: labels and editors, in order.
    Records(Vec<String>, Vec<FieldProbe>),
}

pub open spec fn texts(v: Seq<String>) -> Seq<Seq<char>> {
    v.map_values(|s: String| s@)
}

/// Whether `plan` is the plan of `fields`, which pass the field checks.
pub open spec fn plans_fields(
    plan: InnerPlan,
    fields: Seq<FieldDecl>,
    transparent: bool,
    rename: Option<RenameCase>,
) -> bool {
    if transparent {
        plan == InnerPlan::Transparent(probes_of(fields)[0])
    } else {
        match plan {
            InnerPlan::Records(names, probes) => texts(names@) == names_of(fields, rename) && probes@
                == probes_of(fields),
            InnerPlan::Transparent(_) => false,
        }
    }
}

/// The error of a field list: the first field error, else, for a
/// transparent one, `count_error` unless exactly one field is not skipped.
pub open spec fn inner_error(fields: Seq<FieldDecl>, transparent: bool, count_error: DeriveError) -> Option<
    DeriveError,
> {
    match fields_error(fields) {
        Some(e) => Some(e),
        None => if transparent && probes_of(fields).len() != 1 {
            Some(count_error)
        } else {
            None
        },
    }
}

/// Plans the fields of a struct or variant.
pub fn inner_plan(
    fields: &Vec<FieldDecl>,
    transparent: bool,
    rename: Option<RenameCase>,
    count_error: DeriveError,
) -> (r: Result<InnerPlan, DeriveError>)
    ensures
        match inner_error(fields@, transparent, count_error) {
            Some(e) => r == Err::<InnerPlan, DeriveError>(e),
            None => r is Ok && plans_fields(r->Ok_0, fields@, transparent, rename),
        },
{
    let ghost errs = fields@.map_values(|f: FieldDecl| field_error(f));
    let mut names: Vec<String> = Vec::new();
    let mut probes: Vec<FieldProbe> = Vec::new();
    let mut i: usize = 0;
    while i < fields.len()
        invariant
            i <= fields@.len(),
            errs == fields@.map_values(|f: FieldDecl| field_error(f)),
            first_some(errs.subrange(0, i as int)) is None,
            probes@ == probes_of(fields@.subrange(0, i as int)),
            texts(names@) == names_of(fields@.subrange(0, i as int), rename),
        decreases fields.len() - i,
    {
        let field = &fields[i];
        proof {
            lemma_first_some_step(errs, i as int);
            assert(fields@.subrange(0, i + 1).drop_last() =~= fields@.subrange(0, i as int));
        }
        match field_probe(i, field) {
            Err(e) => {
                proof {
                    lemma_first_some_prefix(errs, i + 1);
                }
                return Err(e);
            },
            Ok(None) => {},
            Ok(Some(probe)) => {
                match field_name(field, rename) {
                    Ok(Some(name)) => {
                        probes.push(probe);
                        names.push(name);
                        assert(texts(names@) =~= texts(names@.drop_last()).push(name@));
                    },
                    _ => {},
                }
            },
        }
        i = i + 1;
    }
    proof {
        assert(fields@.subrange(0, i as int) =~= fields@);
        assert(errs.subrange(0, i as int) =~= errs);
    }
    if transparent {
        if probes.len() != 1 {
            return Err(count_error);
        }
        Ok(InnerPlan::Transparent(probes[0]))
    } else {
        Ok(InnerPlan::Records(names, probes))
    }
}

proof fn lemma_first_some_none(errors: Seq<Option<DeriveError>>)
    requires
        first_some(errors) is None,
    ensures
        forall|j: int| 0 <= j < errors.len() ==> (#[trigger] errors[j]) is None,
    decreases errors.len(),
{
    if errors.len() > 0 {
        lemma_first_some_none(errors.drop_last());
        assert forall|j: int| 0 <= j < errors.len() implies (#[trigger] errors[j]) is None by {
            if j < errors.len() - 1 {
                assert(errors.drop_last()[j] == errors[j]);
            }
        }
    }
}

/// How an enum's variant is chosen, where its declaration fixes it.
#[derive(Clone, Copy, Debug, PartialEq, Eq, Structural)]
pub enum TagsKind {
    Inlined,
    ComboBox,
}

/// The probe attributes of a type.
pub struct TypeAttributes {
    pub rename_all: Option<RenameCase>,
    pub transparent: bool,
    pub tags: Option<TagsKind>,
}

/// A variant of an enum, with its attributes.
pub struct VariantDecl {
    pub ident: String,
    pub name: Option<String>,
    pub transparent: bool,
    pub fields: Vec<FieldDecl>,
}

/// The shape of a declared type.
pub enum DataDecl {
    Struct(Vec<FieldDecl>),
    Enum(Vec<VariantDecl>),
    Union,
}

/// A type declaration, as far as its probe depends on it.
pub struct TypeDecl {
    pub attributes: TypeAttributes,
    pub data: DataDecl,
}

/// The selector label of a variant and what it shows below its row.
pub struct VariantPlan {
    pub name: String,
    pub inner: InnerPlan,
}

/// The probe derived for a type.
pub enum ProbePlan {
    Struct(InnerPlan),
    /// The variant style the declaration fixes (none: the caller's style
    /// decides), and one plan per variant, in order.
    Enum(Option<VariantsStyle>, Vec<VariantPlan>),
}

/// The error a transparent variant's field list gives, checked for all
/// variants before any other variant check.
pub open spec fn variant_switch_error(v: VariantDecl) -> Option<DeriveError> {
    if v.transparent {
        inner_error(v.fields@, true, DeriveError::TransparentVariant)
    } else {
        None
    }
}

pub open spec fn enum_error(variants: Seq<VariantDecl>) -> Option<DeriveError> {
    match first_some(variants.map_values(|v: VariantDecl| variant_switch_error(v))) {
        Some(e) => Some(e),
        None => first_some(variants.map_values(|v: VariantDecl| fields_error(v.fields@))),
    }
}

/// The error a declaration gives, if it breaks a rule.
pub open spec fn derive_error(decl: TypeDecl) -> Option<DeriveError> {
    match decl.data {
        DataDecl::Struct(fields) => if decl.attributes.tags is Some {
            Some(DeriveError::TagsOnStruct)
        } else {
            inner_error(fields@, decl.attributes.transparent, DeriveError::TransparentStruct)
        },
        DataDecl::Enum(variants) => enum_error(variants@),
        DataDecl::Union => Some(DeriveError::Union),
    }
}

pub open spec fn plans_variant(plan: VariantPlan, v: VariantDecl, rename: Option<RenameCase>) -> bool {
    &&& plan.name@ == name_text(opt_text(v.name), Some(v.ident@), rename)
    &&& plans_fields(plan.inner, v.fields@, v.transparent, rename)
}

pub open spec fn tags_style(tags: Option<TagsKind>) -> Option<VariantsStyle> {
    match tags {
        None => None,
        Some(TagsKind::Inlined) => Some(VariantsStyle::Inlined),
        Some(TagsKind::ComboBox) => Some(VariantsStyle::ComboBox),
    }
}

/// Whether `plan` is the probe of `decl`, which breaks no rule.
pub open spec fn plans_type(plan: ProbePlan, decl: TypeDecl) -> bool {
    let rename = decl.attributes.rename_all;
    match (plan, decl.data) {
        (ProbePlan::Struct(inner), DataDecl::Struct(fields)) => plans_fields(
            inner,
            fields@,
            decl.attributes.transparent,
            rename,
        ),
        (ProbePlan::Enum(style, plans), DataDecl::Enum(variants)) => {
            &&& style == tags_style(decl.attributes.tags)
            &&& plans@.len() == variants@.len()
            &&& forall|j: int|
                0 <= j < variants@.len() ==> plans_variant(
                    #[trigger] plans@[j],
                    variants@[j],
                    rename,
                )
        },
        _ => false,
    }
}

fn enum_plan(variants: &Vec<VariantDecl>, rename: Option<RenameCase>) -> (r: Result<
    Vec<VariantPlan>,
    DeriveError,
>)
    ensures
        match enum_error(variants@) {
            Some(e) => r == Err::<Vec<VariantPlan>, DeriveError>(e),
            None => r is Ok && r->Ok_0@.len() == variants@.len() && forall|j: int|
                0 <= j < variants@.len() ==> plans_variant(
                    #[trigger] r->Ok_0@[j],
                    variants@[j],
                    rename,
                ),
        },
{
    let ghost switch_errs = variants@.map_values(|v: VariantDecl| variant_switch_error(v));
    let ghost field_errs = variants@.map_values(|v: VariantDecl| fields_error(v.fields@));
    let n = variants.len();
    let mut i: usize = 0;
    while i < n
        invariant
            n == variants@.len(),
            i <= n,
            switch_errs == variants@.map_values(|v: VariantDecl| variant_switch_error(v)),
            first_some(switch_errs.subrange(0, i as int)) is None,
        decreases n - i,
    {
        proof {
            lemma_first_some_step(switch_errs, i as int);
        }
        let v = &variants[i];
        if v.transparent {
            match inner_plan(&v.fields, true, rename, DeriveError::TransparentVariant) {
                Err(e) => {
                    proof {
                        lemma_first_some_prefix(switch_errs, i + 1);
                    }
                    return Err(e);
                },
                Ok(_) => {},
            }
        }
        i = i + 1;
    }
    proof {
        assert(switch_errs.subrange(0, n as int) =~= switch_errs);
        lemma_first_some_none(switch_errs);
    }
    let mut plans: Vec<VariantPlan> = Vec::new();
    i = 0;
    while i < n
        invariant
            n == variants@.len(),
            i <= n,
            switch_errs == variants@.map_values(|v: VariantDecl| variant_switch_error(v)),
            field_errs == variants@.map_values(|v: VariantDecl| fields_error(v.fields@)),
            forall|j: int| 0 <= j < n ==> (#[trigger] switch_errs[j]) is None,
            first_some(switch_errs) is None,
            first_some(field_errs.subrange(0, i as int)) is None,
            plans@.len() == i,
            forall|j: int| 0 <= j < i ==> plans_variant(#[trigger] plans@[j], variants@[j], rename),
        decreases n - i,
    {
        proof {
            lemma_first_some_step(field_errs, i as int);
            assert(switch_errs[i as int] is None);
        }
        let v = &variants[i];
        match inner_plan(&v.fields, v.transparent, rename, DeriveError::TransparentVariant) {
            Err(e) => {
                proof {
                    lemma_first_some_prefix(field_errs, i + 1);
                }
                return Err(e);
            },
            Ok(inner) => {
                let name = match &v.name {
                    Some(n) => Some(n.clone()),
                    None => None,
                };
                let name = make_name(name, Some(v.ident.as_str()), rename);
                plans.push(VariantPlan { name, inner });
            },
        }
        i = i + 1;
    }
    proof {
        assert(field_errs.subrange(0, n as int) =~= field_errs);
    }
    Ok(plans)
}

/// Checks a declaration and plans its probe: the error of the first rule it
/// breaks, else the plan.
pub fn derive(decl: &TypeDecl) -> (r: Result<ProbePlan, DeriveError>)
    ensures
        match derive_error(*decl) {
            Some(e) => r == Err::<ProbePlan, DeriveError>(e),
            None => r is Ok && plans_type(r->Ok_0, *decl),
        },
{
    let rename = decl.attributes.rename_all;
    match &decl.data {
        DataDecl::Struct(fields) => {
            if decl.attributes.tags.is_some() {
                return Err(DeriveError::TagsOnStruct);
            }
            match inner_plan(fields, decl.attributes.transparent, rename, DeriveError::TransparentStruct) {
                Ok(inner) => Ok(ProbePlan::Struct(inner)),
                Err(e) => Err(e),
            }
        },
        DataDecl::Enum(variants) => {
            let style = match decl.attributes.tags {
                None => None,
                Some(TagsKind::Inlined) => Some(VariantsStyle::Inlined),
                Some(TagsKind::ComboBox) => Some(VariantsStyle::ComboBox),
            };
            match enum_plan(variants, rename) {
                Ok(plans) => Ok(ProbePlan::Enum(style, plans)),
                Err(e) => Err(e),
            }
        },
        DataDecl::Union => Err(DeriveError::Union),
    }
}

proof fn lemma_probes_of(fields: Seq<FieldDecl>)
    requires
        fields.len() <= usize::MAX,
    ensures
        forall|k: int|
            0 <= k < probes_of(fields).len() ==> {
                let p = #[trigger] probes_of(fields)[k];
                &&& p.index < fields.len()
                &&& !fields[p.index as int].attributes.skip
                &&& p.kind == fields[p.index as int].attributes.kind
            },
        forall|j: int|
            0 <= j < fields.len() && !(#[trigger] fields[j]).attributes.skip ==> exists|k: int|
                0 <= k < probes_of(fields).len() && (#[trigger] probes_of(fields)[k]).index == j,
    decreases fields.len(),
{
    if fields.len() > 0 {
        let rest = fields.drop_last();
        lemma_probes_of(rest);
        assert forall|j: int|
            0 <= j < fields.len() && !(#[trigger] fields[j]).attributes.skip implies exists|k: int|
                0 <= k < probes_of(fields).len() && (#[trigger] probes_of(fields)[k]).index == j by {
            if j < rest.len() {
                assert(rest[j] == fields[j]);
                let k = choose|k: int| 0 <= k < probes_of(rest).len() && (#[trigger] probes_of(rest)[k]).index == j;
                assert(probes_of(fields)[k] == probes_of(rest)[k]);
            } else {
                let k = probes_of(rest).len() as int;
                assert(probes_of(fields)[k].index as int == fields.len() - 1);
            }
        }
        assert forall|k: int| 0 <= k < probes_of(fields).len() implies {
            let p = #[trigger] probes_of(fields)[k];
            &&& p.index < fields.len()
            &&& !fields[p.index as int].attributes.skip
            &&& p.kind == fields[p.index as int].attributes.kind
        } by {
            if k < probes_of(rest).len() {
                let p = probes_of(rest)[k];
                assert(probes_of(fields)[k] == p);
                assert(rest[p.index as int] == fields[p.index as int]);
            }
        }
    }
}

/// A transparent struct that passes the checks adds no record of its own:
/// its plan hands its row and its records to its one field that is not
/// skipped, and every other field is skipped.
pub proof fn lemma_transparent_wrapper_is_flat(decl: TypeDecl, plan: ProbePlan)
    requires
        decl.data is Struct,
        (decl.data->Struct_0)@.len() <= usize::MAX,
        decl.attributes.transparent,
        derive_error(decl) is None,
        plans_type(plan, decl),
    ensures
        ({
            let fields = (decl.data->Struct_0)@;
            let p = probes_of(fields)[0];
            &&& plan == ProbePlan::Struct(InnerPlan::Transparent(p))
            &&& p.index < fields.len()
            &&& !fields[p.index as int].attributes.skip
            &&& p.kind == fields[p.index as int].attributes.kind
            &&& forall|j: int|
                0 <= j < fields.len() && j != p.index ==> (#[trigger] fields[j]).attributes.skip
        }),
{
    let fields = (decl.data->Struct_0)@;
    lemma_probes_of(fields);
    let p = probes_of(fields)[0];
    assert forall|j: int| 0 <= j < fields.len() && j != p.index implies (#[trigger] fields[j]).attributes.skip by {
        if !fields[j].attributes.skip {
            let k = choose|k: int| 0 <= k < probes_of(fields).len() && (#[trigger] probes_of(fields)[k]).index == j;
            assert(k == 0);
        }
    }
}

} // verus!
