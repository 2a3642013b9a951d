//! What the `NodeModel` and `RelModel` derives decide, on a plain
//! description of the struct they are applied to: which field is the id,
//! which fields are properties, which `<field>_prop` helpers exist, what the
//! `#[grm(from = .., to = .., ty = ..)]` attributes of a link say, and which
//! error a malformed input gets.

use vstd::prelude::*;
use crate::text::{concat, str_eq};

verus! {

/// A field of the deriving struct: its name (none for a tuple field), the
/// text of its type, and, for each `#[grm(...)]` attribute on it, the paths
/// of the items that the attribute lists, in order.
#[derive(Debug, Clone)]
pub struct FieldInput {
    pub name: Option<String>,
    pub ty: String,
    pub grm_attrs: Vec<Vec<String>>,
}

/// Whether one of the `#[grm(...)]` attributes of `f` lists `id`.
pub open spec fn marked_id(f: FieldInput) -> bool {
    exists|i: int, j: int|
        0 <= i < f.grm_attrs@.len() && 0 <= j < f.grm_attrs@[i]@.len() && (#[trigger] f.grm_attrs@[i]@[j])@
            == "id"@
}

/// A field is the id field when it is marked `#[grm(id)]` or is named `id`.
pub open spec fn field_is_id(f: FieldInput) -> bool {
    marked_id(f) || (f.name matches Some(n) && n@ == "id"@)
}

/// Whether `f` is the id field: marked `#[grm(id)]`, or named `id`.
pub fn is_grm_id_field(field: &FieldInput) -> (r: bool)
    ensures
        r == field_is_id(*field),
{
    let mut i: usize = 0;
    while i < field.grm_attrs.len()
        invariant
            i <= field.grm_attrs@.len(),
            forall|a: int, j: int|
                0 <= a < i && 0 <= j < field.grm_attrs@[a]@.len() ==> (#[trigger] field.grm_attrs@[a]@[j])@
                    != "id"@,
        decreases field.grm_attrs.len() - i,
    {
        let attr = &field.grm_attrs[i];
        let mut j: usize = 0;
        while j < attr.len()
            invariant
                i < field.grm_attrs@.len(),
                attr == field.grm_attrs@[i as int],
                j <= attr@.len(),
                forall|b: int| 0 <= b < j ==> (#[trigger] attr@[b])@ != "id"@,
            decreases attr.len() - j,
        {
            if str_eq(attr[j].as_str(), "id") {
                assert(field.grm_attrs@[i as int]@[j as int]@ == "id"@);
                return true;
            }
            j = j + 1;
        }
        i = i + 1;
    }
    match &field.name {
        Some(n) => str_eq(n.as_str(), "id"),
        None => false,
    }
}

/// A named field of the deriving struct: its name and the text of its type.
#[derive(Debug, Clone)]
pub struct ModelField {
    pub name: String,
    pub ty: String,
}

impl View for ModelField {
    type V = (Seq<char>, Seq<char>);

    open spec fn view(&self) -> (Seq<char>, Seq<char>) {
        (self.name@, self.ty@)
    }
}

/// The named fields, as plain values.
pub open spec fn fields_view(v: Seq<ModelField>) -> Seq<(Seq<char>, Seq<char>)> {
    v.map_values(|f: ModelField| f@)
}

/// The fields of the input, as plain values.
pub open spec fn input_fields(fs: Seq<FieldInput>) -> Seq<(Seq<char>, Seq<char>)> {
    fs.map_values(|f: FieldInput| (f.name->0@, f.ty@))
}

/// Every field carries a name, as the fields of a struct with named fields do.
pub open spec fn all_named(fs: Seq<FieldInput>) -> bool {
    forall|i: int| 0 <= i < fs.len() ==> (#[trigger] fs[i]).name is Some
}

/// What the deriving item is.
#[derive(Debug)]
pub enum DataShape {
    /// A struct with named fields, in declaration order.
    NamedStruct(Vec<FieldInput>),
    /// A tuple or unit struct.
    OtherStruct,
    /// An enum or a union.
    NotStruct,
}

/// The item that a derive is applied to.
#[derive(Debug)]
pub struct DeriveInputModel {
    pub ident: String,
    pub generic_count: usize,
    pub data: DataShape,
    /// The `#[grm(...)]` attributes on the item itself, in order.
    pub grm_attrs: Vec<RelAttrInput>,
}

/// The input is well formed: the fields of a named struct carry names.
pub open spec fn input_ok(input: DeriveInputModel) -> bool {
    input.data matches DataShape::NamedStruct(fs) ==> all_named(fs@)
}

/// The message for a generic deriving type.
pub open spec fn generics_message(derive_name: Seq<char>) -> Seq<char> {
    derive_name + " derive does not yet support generics"@
}

/// Refuses a deriving type with generic parameters.
pub fn ensure_no_generics(input: &DeriveInputModel, derive_name: &str) -> (r: Result<(), String>)
    ensures
        r is Ok <==> input.generic_count == 0,
        r is Err ==> r->Err_0@ == generics_message(derive_name@),
{
    if input.generic_count == 0 {
        Ok(())
    } else {
        Err(concat(derive_name, " derive does not yet support generics"))
    }
}

/// The message for a tuple or unit struct.
pub open spec fn named_fields_message(derive_name: Seq<char>) -> Seq<char> {
    derive_name + " derive requires a struct with named fields"@
}

/// The message for an item that is not a struct.
pub open spec fn structs_only_message(derive_name: Seq<char>) -> Seq<char> {
    derive_name + " can only be derived for structs"@
}

/// The named fields of the input, or why there are none.
pub open spec fn named_fields_spec(input: DeriveInputModel, derive_name: Seq<char>) -> Result<Seq<(Seq<char>, Seq<char>)>, Seq<char>> {
    match input.data {
        DataShape::NamedStruct(fs) => Ok(input_fields(fs@)),
        DataShape::OtherStruct => Err(named_fields_message(derive_name)),
        DataShape::NotStruct => Err(structs_only_message(derive_name)),
    }
}

/// The name and type of a named field.
pub fn model_field(field: &FieldInput) -> (m: ModelField)
    requires
        field.name is Some,
    ensures
        m@ == (field.name->0@, field.ty@),
{
    match &field.name {
        Some(n) => ModelField { name: n.clone(), ty: field.ty.clone() },
        None => ModelField { name: String::new(), ty: field.ty.clone() },
    }
}

/// The fields of a struct with named fields, in order.
pub fn named_struct_fields(input: &DeriveInputModel, derive_name: &str) -> (r: Result<Vec<ModelField>, String>)
    requires
        input_ok(*input),
    ensures
        match named_fields_spec(*input, derive_name@) {
            Ok(fs) => r is Ok && fields_view(r->Ok_0@) == fs,
            Err(m) => r is Err && r->Err_0@ == m,
        },
{
    match &input.data {
        DataShape::NamedStruct(fields) => {
            let mut out: Vec<ModelField> = Vec::new();
            let mut i: usize = 0;
            while i < fields.len()
                invariant
                    all_named(fields@),
                    i <= fields.len(),
                    fields_view(out@) == input_fields(fields@).take(i as int),
                decreases fields.len() - i,
            {
                assert(fields@[i as int].name is Some);
                let m = model_field(&fields[i]);
                assert(m@ == input_fields(fields@)[i as int]);
                let ghost before = out@;
                out.push(m);
                assert(fields_view(out@) =~= fields_view(before).push(m@));
                assert(input_fields(fields@).take(i as int + 1) =~= input_fields(fields@).take(i as int).push(
                    input_fields(fields@)[i as int],
                ));
                i = i + 1;
                assert(fields_view(out@) =~= input_fields(fields@).take(i as int));
            }
            assert(input_fields(fields@).take(i as int) =~= input_fields(fields@));
            Ok(out)
        },
        DataShape::OtherStruct => Err(concat(derive_name, " derive requires a struct with named fields")),
        DataShape::NotStruct => Err(concat(derive_name, " can only be derived for structs")),
    }
}

/// Position of the first field named `name`.
pub open spec fn first_field(fs: Seq<(Seq<char>, Seq<char>)>, name: Seq<char>) -> Option<int>
    decreases fs.len(),
{
    if fs.len() == 0 {
        None
    } else {
        match first_field(fs.drop_last(), name) {
            Some(i) => Some(i),
            None => if fs.last().0 == name {
                Some(fs.len() - 1)
            } else {
                None
            },
        }
    }
}

pub proof fn lemma_first_field_bounds(fs: Seq<(Seq<char>, Seq<char>)>, name: Seq<char>)
    ensures
        first_field(fs, name) is Some ==> 0 <= first_field(fs, name)->0 < fs.len() && fs[first_field(
            fs,
            name,
        )->0].0 == name,
    decreases fs.len(),
{
    if fs.len() > 0 {
        lemma_first_field_bounds(fs.drop_last(), name);
    }
}

/// A match within a prefix is the match of the whole sequence.
pub proof fn lemma_first_field_prefix(fs: Seq<(Seq<char>, Seq<char>)>, name: Seq<char>, n: int)
    requires
        0 <= n <= fs.len(),
        first_field(fs.take(n), name) is Some,
    ensures
        first_field(fs, name) == first_field(fs.take(n), name),
    decreases fs.len() - n,
{
    if n < fs.len() {
        assert(fs.take(n + 1).drop_last() =~= fs.take(n));
        lemma_first_field_prefix(fs, name, n + 1);
    } else {
        assert(fs.take(n) =~= fs);
    }
}

/// The message for a required field that is missing.
pub open spec fn missing_field_message(derive_name: Seq<char>, field_name: Seq<char>) -> Seq<char> {
    derive_name + " must contain a field named `"@ + field_name + "`"@
}

/// Taking the first field named `name` out of `fs`: the field and the rest.
pub open spec fn take_field_spec(fs: Seq<(Seq<char>, Seq<char>)>, name: Seq<char>, derive_name: Seq<char>) -> Result<((Seq<char>, Seq<char>), Seq<(Seq<char>, Seq<char>)>), Seq<char>> {
    match first_field(fs, name) {
        Some(i) => Ok((fs[i], fs.remove(i))),
        None => Err(missing_field_message(derive_name, name)),
    }
}

/// Takes the first field named `field_name` out of `fields`.
pub fn take_required_field(fields: &mut Vec<ModelField>, field_name: &str, derive_name: &str) -> (r: Result<ModelField, String>)
    ensures
        match take_field_spec(fields_view(old(fields)@), field_name@, derive_name@) {
            Ok((f, rest)) => r is Ok && r->Ok_0@ == f && fields_view(final(fields)@) == rest,
            Err(m) => r is Err && r->Err_0@ == m && final(fields)@ == old(fields)@,
        },
{
    let ghost fs = fields_view(fields@);
    proof {
        lemma_first_field_bounds(fs, field_name@);
    }
    let mut i: usize = 0;
    while i < fields.len()
        invariant
            fs == fields_view(fields@),
            fields@ == old(fields)@,
            i <= fields.len(),
            first_field(fs.take(i as int), field_name@) is None,
        decreases fields.len() - i,
    {
        assert(fs.take(i as int + 1).drop_last() =~= fs.take(i as int));
        if str_eq(fields[i].name.as_str(), field_name) {
            assert(first_field(fs.take(i as int + 1), field_name@) == Some(i as int));
            proof {
                lemma_first_field_prefix(fs, field_name@, i as int + 1);
            }
            let f = fields.remove(i);
            assert(fields_view(fields@) =~= fs.remove(i as int));
            assert(f@ == fs[i as int]);
            assert(take_field_spec(fs, field_name@, derive_name@) == Ok::<((Seq<char>, Seq<char>), Seq<(Seq<char>, Seq<char>)>), Seq<char>>((fs[i as int], fs.remove(i as int))));
            return Ok(f);
        }
        i = i + 1;
    }
    assert(fs.take(i as int) =~= fs);
    let m = concat(concat(concat(derive_name, " must contain a field named `").as_str(), field_name).as_str(), "`");
    assert(m@ =~= missing_field_message(derive_name@, field_name@));
    assert(first_field(fs, field_name@) is None);
    Err(m)
}


/// A `<field>_prop` helper: its method name, the field it reads and the
/// field's type.
#[derive(Debug, Clone)]
pub struct PropertyHelper {
    pub method: String,
    pub field: String,
    pub ty: String,
}

impl View for PropertyHelper {
    type V = (Seq<char>, Seq<char>, Seq<char>);

    open spec fn view(&self) -> (Seq<char>, Seq<char>, Seq<char>) {
        (self.method@, self.field@, self.ty@)
    }
}

/// The helpers, as plain values.
pub open spec fn helpers_view(v: Seq<PropertyHelper>) -> Seq<(Seq<char>, Seq<char>, Seq<char>)> {
    v.map_values(|h: PropertyHelper| h@)
}

/// One helper for each named field that is not the id field, in order.
pub open spec fn helper_list(fs: Seq<FieldInput>) -> Seq<(Seq<char>, Seq<char>, Seq<char>)>
    decreases fs.len(),
{
    if fs.len() == 0 {
        Seq::empty()
    } else {
        let last = fs.last();
        helper_list(fs.drop_last()) + if !field_is_id(last) && last.name is Some {
            seq![(last.name->0@ + "_prop"@, last.name->0@, last.ty@)]
        } else {
            Seq::<(Seq<char>, Seq<char>, Seq<char>)>::empty()
        }
    }
}

/// What the property helpers of a derive come to.
#[derive(Debug, Clone)]
pub enum PropertyHelpers {
    /// The derive is refused with this message.
    CompileError(String),
    /// These helpers are generated.
    Helpers(Vec<PropertyHelper>),
}

/// The message when helpers are asked for an item that is not a struct.
pub open spec fn helpers_not_struct_message() -> Seq<char> {
    "NodeModel can only be derived for structs"@
}

/// The helpers for the named fields that are not the id field.
pub fn property_helper_list(fields: &Vec<FieldInput>) -> (r: Vec<PropertyHelper>)
    ensures
        helpers_view(r@) == helper_list(fields@),
{
    let mut out: Vec<PropertyHelper> = Vec::new();
    let mut i: usize = 0;
    while i < fields.len()
        invariant
            i <= fields.len(),
            helpers_view(out@) == helper_list(fields@.take(i as int)),
        decreases fields.len() - i,
    {
        let f = &fields[i];
        assert(fields@.take(i as int + 1).drop_last() =~= fields@.take(i as int));
        assert(fields@.take(i as int + 1).last() == *f);
        let ghost before = out@;
        if !is_grm_id_field(f) {
            match &f.name {
                Some(n) => {
                    let h = PropertyHelper { method: concat(n.as_str(), "_prop"), field: n.clone(), ty: f.ty.clone() };
                    out.push(h);
                    assert(helpers_view(out@) =~= helpers_view(before).push(h@));
                },
                None => {
                    assert(helpers_view(out@) =~= helpers_view(before) + Seq::<(Seq<char>, Seq<char>, Seq<char>)>::empty());
                },
            }
        } else {
            assert(helpers_view(out@) =~= helpers_view(before) + Seq::<(Seq<char>, Seq<char>, Seq<char>)>::empty());
        }
        i = i + 1;
    }
    assert(fields@.take(i as int) =~= fields@);
    out
}

/// The `<field>_prop` helpers of a derive: one per named field that is not
/// the id field; none for a tuple or unit struct; an error for anything else.
pub fn generate_property_helpers(input: &DeriveInputModel) -> (r: PropertyHelpers)
    ensures
        match input.data {
            DataShape::NotStruct => r matches PropertyHelpers::CompileError(m) && m@ == helpers_not_struct_message(),
            DataShape::OtherStruct => r matches PropertyHelpers::Helpers(v) && v@.len() == 0,
            DataShape::NamedStruct(fs) => r matches PropertyHelpers::Helpers(v) && helpers_view(v@) == helper_list(fs@),
        },
{
    match &input.data {
        DataShape::NotStruct => PropertyHelpers::CompileError(String::from_str("NodeModel can only be derived for structs")),
        DataShape::OtherStruct => PropertyHelpers::Helpers(Vec::new()),
        DataShape::NamedStruct(fields) => PropertyHelpers::Helpers(property_helper_list(fields)),
    }
}

/// The literal given to a key of a `#[grm(...)]` attribute on a link: a
/// string (its value, and the type that the string parses to, or the parse
/// error), or some other literal.
#[derive(Debug)]
pub enum RelAttrValue {
    Str { text: String, as_type: Result<String, String> },
    Other,
}

/// One `key = literal` item of a `#[grm(...)]` attribute.
#[derive(Debug)]
pub struct RelAttrArg {
    pub key: String,
    pub value: RelAttrValue,
}

/// A `#[grm(...)]` attribute on a link struct: the items read in order, and
/// the syntax error that stopped the reading, if one did.
#[derive(Debug)]
pub struct RelAttrInput {
    pub args: Vec<RelAttrArg>,
    pub syntax_error: Option<String>,
}

/// The `from`, `to` and `ty` values found so far.
pub type RelAttrState = (Option<Seq<char>>, Option<Seq<char>>, Option<Seq<char>>);

/// The message for an unknown key.
pub open spec fn unknown_attr_message(key: Seq<char>) -> Seq<char> {
    "Unknown RelModel attribute `"@ + key + "`"@
}

/// Reading the items of one attribute: within it, a later item for a key
/// replaces an earlier one; a literal that is not a string is ignored.
pub open spec fn attr_state(args: Seq<RelAttrArg>) -> Result<RelAttrState, Seq<char>>
    decreases args.len(),
{
    if args.len() == 0 {
        Ok((None, None, None))
    } else {
        match attr_state(args.drop_last()) {
            Err(e) => Err(e),
            Ok((f, t, y)) => {
                let a = args.last();
                if a.key@ == "from"@ {
                    match a.value {
                        RelAttrValue::Str { text, as_type } => match as_type {
                            Ok(ty) => Ok((Some(ty@), t, y)),
                            Err(e) => Err(e@),
                        },
                        RelAttrValue::Other => Ok((f, t, y)),
                    }
                } else if a.key@ == "to"@ {
                    match a.value {
                        RelAttrValue::Str { text, as_type } => match as_type {
                            Ok(ty) => Ok((f, Some(ty@), y)),
                            Err(e) => Err(e@),
                        },
                        RelAttrValue::Other => Ok((f, t, y)),
                    }
                } else if a.key@ == "ty"@ {
                    match a.value {
                        RelAttrValue::Str { text, as_type } => Ok((f, t, Some(text@))),
                        RelAttrValue::Other => Ok((f, t, y)),
                    }
                } else {
                    Err(unknown_attr_message(a.key@))
                }
            },
        }
    }
}

/// What one attribute yields.
pub open spec fn attr_result(a: RelAttrInput) -> Result<RelAttrState, Seq<char>> {
    match attr_state(a.args@) {
        Err(e) => Err(e),
        Ok(st) => match a.syntax_error {
            Some(e) => Err(e@),
            None => Ok(st),
        },
    }
}

/// The first value given to a key over all attributes wins.
pub open spec fn first_some(a: Option<Seq<char>>, b: Option<Seq<char>>) -> Option<Seq<char>> {
    if a is Some {
        a
    } else {
        b
    }
}

/// Reading all the attributes in order.
pub open spec fn merged_attrs(attrs: Seq<RelAttrInput>) -> Result<RelAttrState, Seq<char>>
    decreases attrs.len(),
{
    if attrs.len() == 0 {
        Ok((None, None, None))
    } else {
        match merged_attrs(attrs.drop_last()) {
            Err(e) => Err(e),
            Ok((f, t, y)) => match attr_result(attrs.last()) {
                Err(e) => Err(e),
                Ok((f2, t2, y2)) => Ok((first_some(f, f2), first_some(t, t2), first_some(y, y2))),
            },
        }
    }
}

/// The endpoint types and link type that the attributes give, or the first
/// error: a reading error, then a missing `from`, `to` or `ty`, in that order.
pub open spec fn rel_attrs_spec(attrs: Seq<RelAttrInput>) -> Result<(Seq<char>, Seq<char>, Seq<char>), Seq<char>> {
    match merged_attrs(attrs) {
        Err(e) => Err(e),
        Ok((f, t, y)) => if f is None {
            Err("RelModel requires #[grm(from = \"Type\")]"@)
        } else if t is None {
            Err("RelModel requires #[grm(to = \"Type\")]"@)
        } else if y is None {
            Err("RelModel requires #[grm(ty = \"REL_TYPE\")]"@)
        } else {
            Ok((f->0, t->0, y->0))
        },
    }
}

/// Optional text, as a plain value.
pub open spec fn opt_view(o: Option<String>) -> Option<Seq<char>> {
    match o {
        Some(s) => Some(s@),
        None => None,
    }
}

/// Once reading the items of an attribute fails, later items change nothing.
pub proof fn lemma_attr_state_err(args: Seq<RelAttrArg>, n: int)
    requires
        0 <= n <= args.len(),
        attr_state(args.take(n)) is Err,
    ensures
        attr_state(args) == attr_state(args.take(n)),
    decreases args.len() - n,
{
    if n < args.len() {
        assert(args.take(n + 1).drop_last() =~= args.take(n));
        lemma_attr_state_err(args, n + 1);
    } else {
        assert(args.take(n) =~= args);
    }
}

/// Once reading the attributes fails, later attributes change nothing.
pub proof fn lemma_merged_err(attrs: Seq<RelAttrInput>, n: int)
    requires
        0 <= n <= attrs.len(),
        merged_attrs(attrs.take(n)) is Err,
    ensures
        merged_attrs(attrs) == merged_attrs(attrs.take(n)),
    decreases attrs.len() - n,
{
    if n < attrs.len() {
        assert(attrs.take(n + 1).drop_last() =~= attrs.take(n));
        lemma_merged_err(attrs, n + 1);
    } else {
        assert(attrs.take(n) =~= attrs);
    }
}

/// Reads one `#[grm(...)]` attribute of a link struct.
pub fn parse_rel_attr(attr: &RelAttrInput) -> (r: Result<(Option<String>, Option<String>, Option<String>), String>)
    ensures
        match attr_result(*attr) {
            Ok((f, t, y)) => r is Ok && opt_view(r->Ok_0.0) == f && opt_view(r->Ok_0.1) == t && opt_view(r->Ok_0.2) == y,
            Err(e) => r is Err && r->Err_0@ == e,
        },
{
    let mut from_val: Option<String> = None;
    let mut to_val: Option<String> = None;
    let mut ty_val: Option<String> = None;
    let mut i: usize = 0;
    while i < attr.args.len()
        invariant
            i <= attr.args.len(),
            attr_state(attr.args@.take(i as int)) == Ok::<RelAttrState, Seq<char>>((opt_view(from_val), opt_view(to_val), opt_view(ty_val))),
        decreases attr.args.len() - i,
    {
        let a = &attr.args[i];
        assert(attr.args@.take(i as int + 1).drop_last() =~= attr.args@.take(i as int));
        assert(attr.args@.take(i as int + 1).last() == *a);
        if str_eq(a.key.as_str(), "from") {
            match &a.value {
                RelAttrValue::Str { text: _, as_type } => match as_type {
                    Ok(ty) => {
                        from_val = Some(ty.clone());
                    },
                    Err(e) => {
                        proof {
                            lemma_attr_state_err(attr.args@, i as int + 1);
                        }
                        return Err(e.clone());
                    },
                },
                RelAttrValue::Other => {},
            }
        } else if str_eq(a.key.as_str(), "to") {
            match &a.value {
                RelAttrValue::Str { text: _, as_type } => match as_type {
                    Ok(ty) => {
                        to_val = Some(ty.clone());
                    },
                    Err(e) => {
                        proof {
                            lemma_attr_state_err(attr.args@, i as int + 1);
                        }
                        return Err(e.clone());
                    },
                },
                RelAttrValue::Other => {},
            }
        } else if str_eq(a.key.as_str(), "ty") {
            match &a.value {
                RelAttrValue::Str { text, as_type: _ } => {
                    ty_val = Some(text.clone());
                },
                RelAttrValue::Other => {},
            }
        } else {
            let m = concat(concat("Unknown RelModel attribute `", a.key.as_str()).as_str(), "`");
            proof {
                lemma_attr_state_err(attr.args@, i as int + 1);
            }
            return Err(m);
        }
        i = i + 1;
    }
    assert(attr.args@.take(i as int) =~= attr.args@);
    match &attr.syntax_error {
        Some(e) => Err(e.clone()),
        None => Ok((from_val, to_val, ty_val)),
    }
}

/// The endpoint types and link type named by the `#[grm(...)]` attributes of
/// a link struct: `(from, to, ty)`.
pub fn parse_rel_model_attrs(input: &DeriveInputModel) -> (r: Result<(String, String, String), String>)
    ensures
        match rel_attrs_spec(input.grm_attrs@) {
            Ok((f, t, y)) => r is Ok && r->Ok_0.0@ == f && r->Ok_0.1@ == t && r->Ok_0.2@ == y,
            Err(e) => r is Err && r->Err_0@ == e,
        },
{
    let attrs = &input.grm_attrs;
    let mut from_ty: Option<String> = None;
    let mut to_ty: Option<String> = None;
    let mut rel_type: Option<String> = None;
    let mut i: usize = 0;
    while i < attrs.len()
        invariant
            attrs@ == input.grm_attrs@,
            i <= attrs.len(),
            merged_attrs(attrs@.take(i as int)) == Ok::<RelAttrState, Seq<char>>((opt_view(from_ty), opt_view(to_ty), opt_view(rel_type))),
        decreases attrs.len() - i,
    {
        assert(attrs@.take(i as int + 1).drop_last() =~= attrs@.take(i as int));
        assert(attrs@.take(i as int + 1).last() == attrs@[i as int]);
        let (f, t, y) = match parse_rel_attr(&attrs[i]) {
            Ok(v) => v,
            Err(e) => {
                proof {
                    assert(attr_result(attrs@[i as int]) is Err);
                    assert(merged_attrs(attrs@.take(i as int + 1)) == Err::<RelAttrState, Seq<char>>(e@));
                    lemma_merged_err(attrs@, i as int + 1);
                }
                return Err(e);
            },
        };
        if from_ty.is_none() {
            from_ty = f;
        }
        if to_ty.is_none() {
            to_ty = t;
        }
        if rel_type.is_none() {
            rel_type = y;
        }
        i = i + 1;
    }
    assert(attrs@.take(i as int) =~= attrs@);
    let from_ty = match from_ty {
        Some(v) => v,
        None => {
            return Err(String::from_str("RelModel requires #[grm(from = \"Type\")]"));
        },
    };
    let to_ty = match to_ty {
        Some(v) => v,
        None => {
            return Err(String::from_str("RelModel requires #[grm(to = \"Type\")]"));
        },
    };
    let rel_type = match rel_type {
        Some(v) => v,
        None => {
            return Err(String::from_str("RelModel requires #[grm(ty = \"REL_TYPE\")]"));
        },
    };
    Ok((from_ty, to_ty, rel_type))
}


/// The fields of a struct with named fields, or nothing.
pub open spec fn named_input_fields(input: DeriveInputModel) -> Seq<FieldInput> {
    match input.data {
        DataShape::NamedStruct(fs) => fs@,
        _ => Seq::empty(),
    }
}

/// The id field and the property fields of a `NodeModel`, or the first error:
/// generics, then the shape of the item, then a missing `id` field.
pub open spec fn node_fields_spec(input: DeriveInputModel) -> Result<((Seq<char>, Seq<char>), Seq<(Seq<char>, Seq<char>)>), Seq<char>> {
    if input.generic_count > 0 {
        Err(generics_message("NodeModel"@))
    } else {
        match named_fields_spec(input, "NodeModel"@) {
            Err(m) => Err(m),
            Ok(fs) => take_field_spec(fs, "id"@, "NodeModel derive"@),
        }
    }
}

/// What the `NodeModel` derive generates: the label (the struct's name),
/// the id field, the fields stored as properties, and the property helpers.
#[derive(Debug, Clone)]
pub struct NodeModelPlan {
    pub label: String,
    pub id_field: ModelField,
    pub properties: Vec<ModelField>,
    pub helpers: Vec<PropertyHelper>,
}

/// The `NodeModel` derive: the plan of the impl it writes, or the error it
/// reports.
pub fn derive_node_model(input: &DeriveInputModel) -> (r: Result<NodeModelPlan, String>)
    requires
        input_ok(*input),
    ensures
        match node_fields_spec(*input) {
            Err(m) => r is Err && r->Err_0@ == m,
            Ok((id, props)) => r is Ok && r->Ok_0.label@ == input.ident@ && r->Ok_0.id_field@ == id
                && fields_view(r->Ok_0.properties@) == props && helpers_view(r->Ok_0.helpers@)
                == helper_list(named_input_fields(*input)),
        },
{
    let helpers = generate_property_helpers(input);
    ensure_no_generics(input, "NodeModel")?;
    let mut fields = named_struct_fields(input, "NodeModel")?;
    let id_field = take_required_field(&mut fields, "id", "NodeModel derive")?;
    let helpers = match helpers {
        PropertyHelpers::Helpers(v) => v,
        PropertyHelpers::CompileError(_) => Vec::new(),
    };
    Ok(NodeModelPlan { label: input.ident.clone(), id_field, properties: fields, helpers })
}

/// Takes the first field named `name` out of `fs` when there is one; the
/// fields are left as they are otherwise.
pub open spec fn take_optional_field_spec(fs: Seq<(Seq<char>, Seq<char>)>, name: Seq<char>) -> (Option<(Seq<char>, Seq<char>)>, Seq<(Seq<char>, Seq<char>)>) {
    match first_field(fs, name) {
        Some(i) => (Some(fs[i]), fs.remove(i)),
        None => (None, fs),
    }
}

/// Takes the first field named `field_name` out of `fields`, if there is
/// one.
pub fn take_optional_field(fields: &mut Vec<ModelField>, field_name: &str) -> (r: Option<ModelField>)
    ensures
        ({
            let (f, rest) = take_optional_field_spec(fields_view(old(fields)@), field_name@);
            &&& opt_field_view(r) == f
            &&& fields_view(final(fields)@) == rest
        }),
{
    match take_required_field(fields, field_name, "RelModel derive") {
        Ok(f) => Some(f),
        Err(_) => None,
    }
}

/// An optional field as plain values.
pub open spec fn opt_field_view(f: Option<ModelField>) -> Option<(Seq<char>, Seq<char>)> {
    match f {
        Some(x) => Some(x@),
        None => None,
    }
}

/// The parts of a `RelModel`: the attributes `(from, to, ty)`, the id
/// field, the `from` and `to` fields when the struct has them, and the
/// property fields; or the first error: generics, the attributes, the shape
/// of the item, then a missing `id` field. The endpoint types come from the
/// attributes, so a link struct need not store its endpoints.
pub open spec fn rel_fields_spec(input: DeriveInputModel) -> Result<((Seq<char>, Seq<char>, Seq<char>), (Seq<char>, Seq<char>), Option<(Seq<char>, Seq<char>)>, Option<(Seq<char>, Seq<char>)>, Seq<(Seq<char>, Seq<char>)>), Seq<char>> {
    if input.generic_count > 0 {
        Err(generics_message("RelModel"@))
    } else {
        match rel_attrs_spec(input.grm_attrs@) {
            Err(m) => Err(m),
            Ok(attrs) => match named_fields_spec(input, "RelModel"@) {
                Err(m) => Err(m),
                Ok(fs) => match take_field_spec(fs, "id"@, "RelModel derive"@) {
                    Err(m) => Err(m),
                    Ok((id, r1)) => {
                        let (from, r2) = take_optional_field_spec(r1, "from"@);
                        let (to, rest) = take_optional_field_spec(r2, "to"@);
                        Ok((attrs, id, from, to, rest))
                    },
                },
            },
        }
    }
}

/// What the `RelModel` derive generates: the link type and endpoint types
/// from the attributes, the id field, the `from` and `to` fields when the
/// struct stores them, the property fields and the property helpers.
#[derive(Debug, Clone)]
pub struct RelModelPlan {
    pub rel_type: String,
    pub from_type: String,
    pub to_type: String,
    pub id_field: ModelField,
    pub from_field: Option<ModelField>,
    pub to_field: Option<ModelField>,
    pub properties: Vec<ModelField>,
    pub helpers: Vec<PropertyHelper>,
}

/// The `RelModel` derive: the plan of the impl it writes, or the error it
/// reports.
pub fn derive_rel_model(input: &DeriveInputModel) -> (r: Result<RelModelPlan, String>)
    requires
        input_ok(*input),
    ensures
        match rel_fields_spec(*input) {
            Err(m) => r is Err && r->Err_0@ == m,
            Ok((attrs, id, from, to, props)) => r is Ok && (r->Ok_0.from_type@, r->Ok_0.to_type@, r->Ok_0.rel_type@)
                == attrs && r->Ok_0.id_field@ == id && opt_field_view(r->Ok_0.from_field) == from
                && opt_field_view(r->Ok_0.to_field) == to && fields_view(r->Ok_0.properties@) == props
                && helpers_view(r->Ok_0.helpers@) == helper_list(named_input_fields(*input)),
        },
{
    let helpers = generate_property_helpers(input);
    ensure_no_generics(input, "RelModel")?;
    let (from_type, to_type, rel_type) = parse_rel_model_attrs(input)?;
    let mut fields = named_struct_fields(input, "RelModel")?;
    let id_field = take_required_field(&mut fields, "id", "RelModel derive")?;
    let from_field = take_optional_field(&mut fields, "from");
    let to_field = take_optional_field(&mut fields, "to");
    let helpers = match helpers {
        PropertyHelpers::Helpers(v) => v,
        PropertyHelpers::CompileError(_) => Vec::new(),
    };
    Ok(RelModelPlan { rel_type, from_type, to_type, id_field, from_field, to_field, properties: fields, helpers })
}

} // verus!
