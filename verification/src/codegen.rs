//! The rules that the input of a message derive has to meet.
//!
//! A derive reads attributes and enum variants from a syntax tree. The
//! types here hold, as plain values, exactly what those rules look at, so
//! that the rules themselves are functions on plain data.

use vstd::prelude::*;

verus! {

/// Where the runtime crate was found from the crate that is being compiled.
#[derive(Debug, Clone)]
pub enum FoundCrate {
    /// The crate that is being compiled is the runtime crate itself.
    Itself,
    /// The runtime crate is a dependency, known under this name.
    Name(String),
}

/// What the arguments of an attribute are when they are read as one type
/// path.
#[derive(Debug, Clone)]
pub enum TypeArg {
    /// The arguments are not a type path.
    Invalid,
    /// The arguments are a type path; `Some` holds its name if the path is
    /// a single identifier.
    Path(Option<String>),
}

/// One argument of an attribute that is a list, `name(a, b)`.
#[derive(Debug, Clone)]
pub enum MetaArg {
    /// An integer literal, by its digits in base ten.
    Int(String),
    /// A path that is a single identifier.
    Ident(String),
    /// Anything else.
    Other,
}

/// One attribute: the identifier its path consists of, if it is a single
/// identifier; its arguments read as a type path; and its arguments one by
/// one, if it is a list `name(a, b)`.
#[derive(Debug, Clone)]
pub struct Attr {
    pub ident: Option<String>,
    pub type_arg: TypeArg,
    pub args: Option<Vec<MetaArg>>,
}

/// Why attributes hold no field attribute `field(n)` or `field(n, default)`.
#[derive(Debug, Clone, Copy, PartialEq, Eq, Structural)]
pub enum FieldAttrError {
    /// No attribute is `field`.
    Missing,
    /// The attribute is no list.
    ExpectedList,
    /// The first argument is no number.
    ExpectedNumber,
    /// The number does not fit 32 bits.
    NumberTooLarge,
    /// There is more after the number than `default`.
    ExpectedDefault,
}

/// The field number of a variant or field and whether it is the default.
#[derive(Debug, Clone, Copy, PartialEq, Eq, Structural)]
pub struct FieldAttr {
    pub fieldnum: u32,
    pub default: bool,
}

/// The shape of a variant's fields.
#[derive(Debug, Clone, Copy, PartialEq, Eq, Structural)]
pub enum Fields {
    Named,
    /// Tuple fields, with their number.
    Unnamed(usize),
    Unit,
}

/// What stands behind the `=` of a variant.
#[derive(Debug, Clone)]
pub enum Discriminant {
    /// The variant has no `= ..`.
    Missing,
    /// An integer literal, by its digits in base ten.
    Int(String),
    /// Any other expression.
    Other,
}

/// One variant of an enum.
#[derive(Debug, Clone)]
pub struct Variant {
    pub ident: String,
    pub attrs: Vec<Attr>,
    pub discriminant: Discriminant,
    pub fields: Fields,
}

/// A variant without fields: its number, in digits, and its name.
#[derive(Debug, Clone)]
pub struct NumberedVariant {
    pub number: String,
    pub ident: String,
}

/// A variant with at most one field: its attribute, its name and whether it
/// has the field.
#[derive(Debug, Clone)]
pub struct FieldVariant {
    pub attr: FieldAttr,
    pub ident: String,
    pub has_field: bool,
}

/// Why the representation attributes were refused.
#[derive(Debug, Clone, Copy, PartialEq, Eq, Structural)]
pub enum ReprError {
    /// The arguments of the `repr` attribute at this index are no type path.
    InvalidArgs(usize),
    /// The `repr` attribute at this index names something else than `i32`.
    ExpectedI32(usize),
}

/// The rule that an enum broke.
#[derive(Debug, Clone, Copy, PartialEq, Eq, Structural)]
pub enum EnumErrorKind {
    /// The variant has no `= x`.
    MissingFieldNumber,
    /// What stands behind `=` is no integer literal.
    ExpectedInt,
    /// The variant is number zero without being the default, or the default
    /// without being number zero.
    DefaultMismatch,
    /// The variant has fields where none are allowed.
    FieldsNotAllowed,
    /// No variant is the default.
    NoDefault,
    /// The variant has no valid field attribute.
    InvalidFieldAttr(FieldAttrError),
    /// The variant has tuple fields, but not exactly one.
    OnlyOneUnnamedField,
    /// The variant has named fields.
    NamedFieldsNotSupported,
}

/// A broken rule and the index of the variant that broke it; `None` where
/// the enum as a whole did.
#[derive(Debug, Clone, Copy, PartialEq, Eq, Structural)]
pub struct EnumError {
    pub kind: EnumErrorKind,
    pub variant: Option<usize>,
}

impl FieldAttrError {
    /// The text shown to the user for this error.
    pub open spec fn spec_message(self) -> Seq<char> {
        match self {
            FieldAttrError::Missing => "expected a field attribute"@,
            FieldAttrError::ExpectedList => "expected #[field(n)]"@,
            FieldAttrError::ExpectedNumber => "expected a field number"@,
            FieldAttrError::NumberTooLarge => "field number too large"@,
            FieldAttrError::ExpectedDefault => "expected default"@,
        }
    }

    /// The text shown to the user for this error.
    pub fn message(self) -> (text: String)
        ensures
            text@ == self.spec_message(),
    {
        match self {
            FieldAttrError::Missing => "expected a field attribute".to_owned(),
            FieldAttrError::ExpectedList => "expected #[field(n)]".to_owned(),
            FieldAttrError::ExpectedNumber => "expected a field number".to_owned(),
            FieldAttrError::NumberTooLarge => "field number too large".to_owned(),
            FieldAttrError::ExpectedDefault => "expected default".to_owned(),
        }
    }
}

impl EnumErrorKind {
    /// The text shown to the user for this rule.
    pub open spec fn spec_message(self) -> Seq<char> {
        match self {
            EnumErrorKind::MissingFieldNumber => "needs to have a field number `Ident = x`"@,
            EnumErrorKind::ExpectedInt => "expected = int"@,
            EnumErrorKind::DefaultMismatch => "expected number zero and a default attribute"@,
            EnumErrorKind::FieldsNotAllowed => "no fields allowed"@,
            EnumErrorKind::NoDefault => "a fields needs to be the default"@,
            EnumErrorKind::InvalidFieldAttr(e) => e.spec_message(),
            EnumErrorKind::OnlyOneUnnamedField => "only one unnamed field allowed"@,
            EnumErrorKind::NamedFieldsNotSupported => "named fields not supported"@,
        }
    }

    /// The text shown to the user for this rule.
    pub fn message(self) -> (text: String)
        ensures
            text@ == self.spec_message(),
    {
        match self {
            EnumErrorKind::MissingFieldNumber => "needs to have a field number `Ident = x`".to_owned(),
            EnumErrorKind::ExpectedInt => "expected = int".to_owned(),
            EnumErrorKind::DefaultMismatch => "expected number zero and a default attribute".to_owned(),
            EnumErrorKind::FieldsNotAllowed => "no fields allowed".to_owned(),
            EnumErrorKind::NoDefault => "a fields needs to be the default".to_owned(),
            EnumErrorKind::InvalidFieldAttr(e) => e.message(),
            EnumErrorKind::OnlyOneUnnamedField => "only one unnamed field allowed".to_owned(),
            EnumErrorKind::NamedFieldsNotSupported => "named fields not supported".to_owned(),
        }
    }
}

/// Whether the string and the text hold the same characters.
fn same_text(s: &String, text: &str) -> (same: bool)
    ensures
        same == (s@ == text@),
{
    let owned = text.to_owned();
    *s == owned
}

impl Attr {
    /// The attribute's path is the single identifier `name`.
    pub open spec fn is_ident(&self, name: Seq<char>) -> bool {
        self.ident matches Some(s) && s@ == name
    }

    /// The attribute is a `repr` whose arguments are no type path.
    pub open spec fn is_bad_repr(&self) -> bool {
        self.is_ident("repr"@) && self.type_arg is Invalid
    }

    /// The attribute's arguments are the type `i32`.
    pub open spec fn names_i32(&self) -> bool {
        self.type_arg matches TypeArg::Path(Some(s)) && s@ == "i32"@
    }

    /// Whether the attribute's path is the single identifier `name`.
    pub fn path_is(&self, name: &str) -> (b: bool)
        ensures
            b == self.is_ident(name@),
    {
        match &self.ident {
            Some(s) => same_text(s, name),
            None => false,
        }
    }
}

/// The path by which generated code reaches the runtime crate: its own name
/// where the code is generated inside that crate, else the name it was found
/// under.
pub fn fire_protobuf_crate(found: FoundCrate) -> (path: String)
    ensures
        path@ == match found {
            FoundCrate::Itself => "fire_stream"@,
            FoundCrate::Name(n) => n@,
        },
{
    match found {
        FoundCrate::Itself => "fire_stream".to_owned(),
        FoundCrate::Name(n) => n,
    }
}

/// Whether the type is represented as an `i32`: `Ok(false)` without a `repr`
/// attribute, `Ok(true)` where the last `repr` names `i32`.
///
/// The first `repr` whose arguments are no type path is an error. Without
/// one, the last `repr` decides, and is an error if it names anything else.
pub fn repr_as_i32(attrs: Vec<Attr>) -> (r: Result<bool, ReprError>)
    ensures
        match r {
            Err(ReprError::InvalidArgs(i)) => {
                &&& i < attrs.len()
                &&& attrs[i as int].is_bad_repr()
                &&& forall|j: int| 0 <= j < i ==> !(#[trigger] attrs[j]).is_bad_repr()
            },
            Err(ReprError::ExpectedI32(i)) => {
                &&& i < attrs.len()
                &&& attrs[i as int].is_ident("repr"@)
                &&& !attrs[i as int].names_i32()
                &&& forall|j: int| 0 <= j < attrs.len() ==> !(#[trigger] attrs[j]).is_bad_repr()
                &&& forall|j: int| i < j < attrs.len() ==> !(#[trigger] attrs[j]).is_ident("repr"@)
            },
            Ok(found) => {
                &&& forall|j: int| 0 <= j < attrs.len() ==> !(#[trigger] attrs[j]).is_bad_repr()
                &&& found <==> exists|i: int|
                    0 <= i < attrs.len() && (#[trigger] attrs[i]).is_ident("repr"@)
                &&& forall|i: int|
                    0 <= i < attrs.len() && (#[trigger] attrs[i]).is_ident("repr"@) && (forall|j: int|
                        i < j < attrs.len() ==> !(#[trigger] attrs[j]).is_ident("repr"@))
                        ==> attrs[i].names_i32()
            },
        },
{
    let mut last: Option<usize> = None;
    let mut i: usize = 0;
    while i < attrs.len()
        invariant
            i <= attrs.len(),
            forall|j: int| 0 <= j < i ==> !(#[trigger] attrs[j]).is_bad_repr(),
            match last {
                Some(k) => k < i && attrs[k as int].is_ident("repr"@) && forall|j: int|
                    k < j < i ==> !(#[trigger] attrs[j]).is_ident("repr"@),
                None => forall|j: int| 0 <= j < i ==> !(#[trigger] attrs[j]).is_ident("repr"@),
            },
        decreases attrs.len() - i,
    {
        if attrs[i].path_is("repr") {
            match &attrs[i].type_arg {
                TypeArg::Invalid => {
                    return Err(ReprError::InvalidArgs(i));
                },
                TypeArg::Path(_) => {
                    last = Some(i);
                },
            }
        }
        i += 1;
    }
    match last {
        Some(k) => {
            let is_i32 = match &attrs[k].type_arg {
                TypeArg::Path(Some(s)) => same_text(s, "i32"),
                _ => false,
            };
            if is_i32 {
                Ok(true)
            } else {
                Err(ReprError::ExpectedI32(k))
            }
        },
        None => Ok(false),
    }
}

/// The value of a decimal digit.
pub open spec fn digit_value(c: char) -> Option<nat> {
    if 48 <= c as u32 <= 57 {
        Some((c as u32 - 48) as nat)
    } else {
        None
    }
}

/// The number that decimal digits stand for; `None` where there are no
/// digits or something else among them.
pub open spec fn decimal(digits: Seq<char>) -> Option<nat>
    decreases digits.len(),
{
    if digits.len() == 0 {
        None
    } else {
        match digit_value(digits.last()) {
            None => None,
            Some(d) => if digits.len() == 1 {
                Some(d)
            } else {
                match decimal(digits.drop_last()) {
                    Some(v) => Some(10 * v + d),
                    None => None,
                }
            },
        }
    }
}

/// Digits with something else among them stand for no number.
pub proof fn lemma_decimal_needs_digits(digits: Seq<char>, i: int)
    requires
        0 <= i < digits.len(),
        digit_value(digits[i]) is None,
    ensures
        decimal(digits) is None,
    decreases digits.len(),
{
    if i < digits.len() - 1 {
        assert(digits.drop_last()[i] == digits[i]);
        lemma_decimal_needs_digits(digits.drop_last(), i);
    }
}

/// Reads a field number from its digits.
pub fn parse_fieldnum(digits: &str) -> (r: Result<u32, FieldAttrError>)
    ensures
        r == match decimal(digits@) {
            None => Err::<u32, FieldAttrError>(FieldAttrError::ExpectedNumber),
            Some(v) => if v > u32::MAX {
                Err(FieldAttrError::NumberTooLarge)
            } else {
                Ok(v as u32)
            },
        },
{
    let n = digits.unicode_len();
    if n == 0 {
        return Err(FieldAttrError::ExpectedNumber);
    }
    // the value so far, or one more than the largest where it is larger
    let mut acc: u64 = 0;
    let ghost mut value: nat = 0;
    let mut i: usize = 0;
    while i < n
        invariant
            n == digits@.len(),
            i <= n,
            i == 0 ==> value == 0,
            i > 0 ==> decimal(digits@.take(i as int)) == Some(value),
            acc == if value > u32::MAX {
                0x1_0000_0000
            } else {
                value
            },
        decreases n - i,
    {
        let c = digits.get_char(i);
        let code: u32 = c as u32;
        if code < 48 || code > 57 {
            proof {
                lemma_decimal_needs_digits(digits@, i as int);
            }
            return Err(FieldAttrError::ExpectedNumber);
        }
        let d: u64 = (code - 48) as u64;
        proof {
            let next = digits@.take(i + 1);
            assert(next.last() == c);
            assert(next.drop_last() =~= digits@.take(i as int));
            value = if i == 0 {
                d as nat
            } else {
                10 * value + d as nat
            };
        }
        acc = acc * 10 + d;
        if acc > 0xffff_ffff {
            acc = 0x1_0000_0000;
        }
        i += 1;
    }
    assert(digits@.take(n as int) =~= digits@);
    if acc > 0xffff_ffff {
        Err(FieldAttrError::NumberTooLarge)
    } else {
        Ok(acc as u32)
    }
}

impl Attr {
    /// The field attribute that this attribute holds: its first argument
    /// is the field number, and `default` may follow.
    pub open spec fn spec_field_attr(&self) -> Result<FieldAttr, FieldAttrError> {
        match self.args {
            None => Err(FieldAttrError::ExpectedList),
            Some(args) => if args@.len() == 0 {
                Err(FieldAttrError::ExpectedNumber)
            } else {
                match args@[0] {
                    MetaArg::Int(digits) => match decimal(digits@) {
                        None => Err(FieldAttrError::ExpectedNumber),
                        Some(v) => if v > u32::MAX {
                            Err(FieldAttrError::NumberTooLarge)
                        } else if args@.len() == 1 {
                            Ok(FieldAttr { fieldnum: v as u32, default: false })
                        } else if args@.len() == 2 && is_default_arg(args@[1]) {
                            Ok(FieldAttr { fieldnum: v as u32, default: true })
                        } else {
                            Err(FieldAttrError::ExpectedDefault)
                        },
                    },
                    _ => Err(FieldAttrError::ExpectedNumber),
                }
            },
        }
    }

    /// Reads this attribute as a field attribute.
    pub fn field_attr(&self) -> (r: Result<FieldAttr, FieldAttrError>)
        ensures
            r == self.spec_field_attr(),
    {
        let args = match &self.args {
            None => {
                return Err(FieldAttrError::ExpectedList);
            },
            Some(args) => args,
        };
        if args.len() == 0 {
            return Err(FieldAttrError::ExpectedNumber);
        }
        let fieldnum = match &args[0] {
            MetaArg::Int(digits) => match parse_fieldnum(digits.as_str()) {
                Ok(fieldnum) => fieldnum,
                Err(e) => {
                    return Err(e);
                },
            },
            _ => {
                return Err(FieldAttrError::ExpectedNumber);
            },
        };
        if args.len() == 1 {
            return Ok(FieldAttr { fieldnum, default: false });
        }
        let default = args.len() == 2 && match &args[1] {
            MetaArg::Ident(name) => same_text(name, "default"),
            _ => false,
        };
        if default {
            Ok(FieldAttr { fieldnum, default: true })
        } else {
            Err(FieldAttrError::ExpectedDefault)
        }
    }
}

/// The argument is the identifier `default`.
pub open spec fn is_default_arg(arg: MetaArg) -> bool {
    arg matches MetaArg::Ident(name) && name@ == "default"@
}

impl FieldAttr {
    /// The field attribute among the attributes: what the first attribute
    /// `field` holds.
    pub open spec fn spec_from_attrs(attrs: Seq<Attr>) -> Result<FieldAttr, FieldAttrError>
        decreases attrs.len(),
    {
        if attrs.len() == 0 {
            Err(FieldAttrError::Missing)
        } else if attrs[0].is_ident("field"@) {
            attrs[0].spec_field_attr()
        } else {
            FieldAttr::spec_from_attrs(attrs.skip(1))
        }
    }

    /// Reads the field attribute among the attributes.
    pub fn from_attrs(attrs: &[Attr]) -> (r: Result<FieldAttr, FieldAttrError>)
        ensures
            r == FieldAttr::spec_from_attrs(attrs@),
    {
        let mut i: usize = 0;
        assert(attrs@.skip(0) =~= attrs@);
        while i < attrs.len()
            invariant
                i <= attrs@.len(),
                FieldAttr::spec_from_attrs(attrs@) == FieldAttr::spec_from_attrs(
                    attrs@.skip(i as int),
                ),
            decreases attrs@.len() - i,
        {
            assert(attrs@.skip(i as int)[0] == attrs@[i as int]);
            if attrs[i].path_is("field") {
                return attrs[i].field_attr();
            }
            assert(attrs@.skip(i as int).skip(1) =~= attrs@.skip(i + 1));
            i += 1;
        }
        Err(FieldAttrError::Missing)
    }
}

/// Some attribute is `default`.
pub open spec fn spec_has_default_attr(attrs: Seq<Attr>) -> bool {
    exists|i: int| 0 <= i < attrs.len() && (#[trigger] attrs[i]).is_ident("default"@)
}

/// Whether some attribute is `default`.
pub fn has_default_attr(attrs: &[Attr]) -> (b: bool)
    ensures
        b == spec_has_default_attr(attrs@),
{
    let mut i: usize = 0;
    while i < attrs.len()
        invariant
            i <= attrs.len(),
            forall|j: int| 0 <= j < i ==> !(#[trigger] attrs@[j]).is_ident("default"@),
        decreases attrs.len() - i,
    {
        if attrs[i].path_is("default") {
            return true;
        }
        i += 1;
    }
    false
}

impl Variant {
    /// The variant's number is the literal zero.
    pub open spec fn is_zero(&self) -> bool {
        self.discriminant matches Discriminant::Int(d) && d@ == "0"@
    }

    /// The rule that this variant breaks as a variant without fields, if
    /// any: it needs a number, which is an integer literal; it is the
    /// default exactly if its number is zero; and it has no fields.
    pub open spec fn unit_fault(&self) -> Option<EnumErrorKind> {
        match self.discriminant {
            Discriminant::Missing => Some(EnumErrorKind::MissingFieldNumber),
            Discriminant::Other => Some(EnumErrorKind::ExpectedInt),
            Discriminant::Int(_) => if spec_has_default_attr(self.attrs@) != self.is_zero() {
                Some(EnumErrorKind::DefaultMismatch)
            } else if self.fields != Fields::Unit {
                Some(EnumErrorKind::FieldsNotAllowed)
            } else {
                None
            },
        }
    }

    /// The rule that this variant breaks as a variant with at most one
    /// field, if any: it needs a valid field attribute, and it has no fields
    /// or a single tuple field.
    pub open spec fn field_fault(&self) -> Option<EnumErrorKind> {
        if let Err(e) = FieldAttr::spec_from_attrs(self.attrs@) {
            Some(EnumErrorKind::InvalidFieldAttr(e))
        } else {
            match self.fields {
                Fields::Unnamed(n) => if n != 1 {
                    Some(EnumErrorKind::OnlyOneUnnamedField)
                } else {
                    None
                },
                Fields::Unit => None,
                Fields::Named => Some(EnumErrorKind::NamedFieldsNotSupported),
            }
        }
    }
}

impl Variant {
    /// Checks the variant as one without fields.
    pub fn check_unit(&self) -> (fault: Option<EnumErrorKind>)
        ensures
            fault == self.unit_fault(),
    {
        let zero = match &self.discriminant {
            Discriminant::Missing => {
                return Some(EnumErrorKind::MissingFieldNumber);
            },
            Discriminant::Other => {
                return Some(EnumErrorKind::ExpectedInt);
            },
            Discriminant::Int(digits) => same_text(digits, "0"),
        };
        if has_default_attr(self.attrs.as_slice()) != zero {
            return Some(EnumErrorKind::DefaultMismatch);
        }
        match self.fields {
            Fields::Unit => None,
            _ => Some(EnumErrorKind::FieldsNotAllowed),
        }
    }

    /// Checks the variant as one with at most one field.
    pub fn check_field(&self) -> (fault: Option<EnumErrorKind>)
        ensures
            fault == self.field_fault(),
    {
        if let Err(e) = FieldAttr::from_attrs(self.attrs.as_slice()) {
            return Some(EnumErrorKind::InvalidFieldAttr(e));
        }
        match self.fields {
            Fields::Unnamed(count) => if count != 1 {
                Some(EnumErrorKind::OnlyOneUnnamedField)
            } else {
                None
            },
            Fields::Unit => None,
            Fields::Named => Some(EnumErrorKind::NamedFieldsNotSupported),
        }
    }
}

/// No two variants have number zero, unless some variant breaks a rule on
/// its own. An enum that the compiler accepts is always like that.
pub open spec fn spec_default_is_unique(variants: Seq<Variant>) -> bool {
    (forall|j: int| 0 <= j < variants.len() ==> (#[trigger] variants[j]).unit_fault() is None)
        ==> forall|a: int, b: int|
        0 <= a < variants.len() && 0 <= b < variants.len() && (#[trigger] variants[a]).is_zero()
            && (#[trigger] variants[b]).is_zero() ==> a == b
}

/// Whether `variants_no_fields` takes these variants.
pub fn default_is_unique(variants: &[Variant]) -> (unique: bool)
    ensures
        unique == spec_default_is_unique(variants@),
{
    let mut zero: Option<usize> = None;
    let mut twice = false;
    let mut i: usize = 0;
    while i < variants.len()
        invariant
            i <= variants@.len(),
            forall|j: int| 0 <= j < i ==> (#[trigger] variants@[j]).unit_fault() is None,
            match zero {
                Some(k) => k < i && variants@[k as int].is_zero() && forall|j: int|
                    0 <= j < k ==> !(#[trigger] variants@[j]).is_zero(),
                None => forall|j: int| 0 <= j < i ==> !(#[trigger] variants@[j]).is_zero(),
            },
            twice <==> exists|a: int, b: int|
                0 <= a < b < i && (#[trigger] variants@[a]).is_zero() && (
                #[trigger] variants@[b]).is_zero(),
        decreases variants@.len() - i,
    {
        if variants[i].check_unit().is_some() {
            return true;
        }
        let is_zero = match &variants[i].discriminant {
            Discriminant::Int(digits) => same_text(digits, "0"),
            _ => false,
        };
        if is_zero {
            match zero {
                Some(k) => {
                    assert(variants@[k as int].is_zero() && variants@[i as int].is_zero());
                    twice = true;
                },
                None => {
                    zero = Some(i);
                },
            }
        }
        i += 1;
    }
    proof {
        if twice {
            let (a, b) = choose|a: int, b: int|
                0 <= a < b < i && (#[trigger] variants@[a]).is_zero() && (
                #[trigger] variants@[b]).is_zero();
            assert(a != b);
        } else {
            assert forall|a: int, b: int|
                0 <= a < variants@.len() && 0 <= b < variants@.len() && (
                #[trigger] variants@[a]).is_zero() && (#[trigger] variants@[b]).is_zero() implies a
                == b by {
                if a < b {
                    assert(variants@[a].is_zero() && variants@[b].is_zero());
                } else if b < a {
                    assert(variants@[b].is_zero() && variants@[a].is_zero());
                }
            }
        }
    }
    !twice
}

impl NumberedVariant {
    /// This is the number and the name of `v`.
    pub open spec fn is_of(&self, v: Variant) -> bool {
        &&& self.ident@ == v.ident@
        &&& v.discriminant matches Discriminant::Int(d) && self.number@ == d@
    }
}

impl FieldVariant {
    /// This is the attribute, the name and the field of `v`.
    pub open spec fn is_of(&self, v: Variant) -> bool {
        &&& self.ident@ == v.ident@
        &&& FieldAttr::spec_from_attrs(v.attrs@) == Ok::<FieldAttr, FieldAttrError>(self.attr)
        &&& self.has_field == (v.fields is Unnamed)
    }
}

/// The variants of an enum without fields, split into the default variant
/// (the first with number zero) and the others in their order.
///
/// The first variant that breaks a rule is the error; if none does and no
/// variant has number zero, the enum has no default.
pub fn variants_no_fields(variants: Vec<Variant>) -> (r: Result<
    (Vec<NumberedVariant>, NumberedVariant),
    EnumError,
>)
    requires
        spec_default_is_unique(variants@),
    ensures
        match r {
            Err(e) => match e.variant {
                Some(i) => {
                    &&& i < variants.len()
                    &&& variants[i as int].unit_fault() == Some(e.kind)
                    &&& forall|j: int| 0 <= j < i ==> (#[trigger] variants[j]).unit_fault() is None
                },
                None => {
                    &&& e.kind == EnumErrorKind::NoDefault
                    &&& forall|j: int|
                        0 <= j < variants.len() ==> (#[trigger] variants[j]).unit_fault() is None
                    &&& forall|j: int| 0 <= j < variants.len() ==> !(#[trigger] variants[j]).is_zero()
                },
            },
            Ok((rest, default)) => {
                &&& forall|j: int|
                    0 <= j < variants.len() ==> (#[trigger] variants[j]).unit_fault() is None
                &&& rest.len() + 1 == variants.len()
                &&& exists|k: int|
                    {
                        &&& 0 <= k < variants.len()
                        &&& default.is_of(#[trigger] variants[k])
                        &&& variants[k].is_zero()
                        &&& forall|j: int| 0 <= j < k ==> (#[trigger] rest[j]).is_of(variants[j])
                        &&& forall|j: int|
                            k <= j < rest.len() ==> (#[trigger] rest[j]).is_of(variants[j + 1])
                    }
                &&& forall|j: int| 0 <= j < rest.len() ==> (#[trigger] rest[j]).number@ != "0"@
            },
        },
{
    let n = variants.len();
    let mut numbered: Vec<NumberedVariant> = Vec::new();
    let mut i: usize = 0;
    while i < n
        invariant
            n == variants.len(),
            i <= n,
            numbered.len() == i,
            forall|j: int| 0 <= j < i ==> (#[trigger] variants[j]).unit_fault() is None,
            forall|j: int| 0 <= j < i ==> (#[trigger] numbered[j]).is_of(variants[j]),
        decreases n - i,
    {
        let v = &variants[i];
        if let Some(kind) = v.check_unit() {
            return Err(EnumError { kind, variant: Some(i) });
        }
        let number = match &v.discriminant {
            Discriminant::Int(digits) => digits,
            _ => {
                return Err(EnumError { kind: EnumErrorKind::MissingFieldNumber, variant: Some(i) });
            },
        };
        numbered.push(NumberedVariant { number: number.clone(), ident: v.ident.clone() });
        i += 1;
    }
    let mut k: usize = 0;
    while k < n && !same_text(&numbered[k].number, "0")
        invariant
            n == variants.len(),
            numbered.len() == n,
            k <= n,
            forall|j: int| 0 <= j < n ==> (#[trigger] numbered[j]).is_of(variants[j]),
            forall|j: int| 0 <= j < k ==> !(#[trigger] variants[j]).is_zero(),
        decreases n - k,
    {
        k += 1;
    }
    if k == n {
        return Err(EnumError { kind: EnumErrorKind::NoDefault, variant: None });
    }
    let ghost all = numbered@;
    let default = numbered.remove(k);
    proof {
        assert(default.is_of(variants[k as int]));
        assert forall|j: int| 0 <= j < numbered.len() implies (#[trigger] numbered[j]).number@
            != "0"@ by {
            let src = if j < k { j } else { j + 1 };
            assert(all[src].is_of(variants[src]));
            assert(numbered[j] == all[src]);
            if numbered[j].number@ == "0"@ {
                assert(variants[src].is_zero());
                assert(variants[k as int].is_zero());
            }
        }
    }
    Ok((numbered, default))
}

/// The variants of an enum whose variants have at most one field, each with
/// its field attribute, its name and whether it has the field.
///
/// The first variant that breaks a rule is the error.
pub fn variants_with_fields(variants: Vec<Variant>) -> (r: Result<Vec<FieldVariant>, EnumError>)
    ensures
        match r {
            Err(e) => {
                &&& e.variant matches Some(i)
                &&& i < variants.len()
                &&& variants[i as int].field_fault() == Some(e.kind)
                &&& forall|j: int| 0 <= j < i ==> (#[trigger] variants[j]).field_fault() is None
            },
            Ok(list) => {
                &&& list.len() == variants.len()
                &&& forall|j: int|
                    0 <= j < variants.len() ==> (#[trigger] variants[j]).field_fault() is None
                &&& forall|j: int| 0 <= j < list.len() ==> (#[trigger] list[j]).is_of(variants[j])
            },
        },
{
    let n = variants.len();
    let mut list: Vec<FieldVariant> = Vec::new();
    let mut i: usize = 0;
    while i < n
        invariant
            n == variants.len(),
            i <= n,
            list.len() == i,
            forall|j: int| 0 <= j < i ==> (#[trigger] variants[j]).field_fault() is None,
            forall|j: int| 0 <= j < i ==> (#[trigger] list[j]).is_of(variants[j]),
        decreases n - i,
    {
        let v = &variants[i];
        let attr = match FieldAttr::from_attrs(v.attrs.as_slice()) {
            Ok(attr) => attr,
            Err(e) => {
                return Err(
                    EnumError { kind: EnumErrorKind::InvalidFieldAttr(e), variant: Some(i) },
                );
            },
        };
        let has_field = match v.fields {
            Fields::Unnamed(count) => {
                if count != 1 {
                    return Err(
                        EnumError { kind: EnumErrorKind::OnlyOneUnnamedField, variant: Some(i) },
                    );
                }
                true
            },
            Fields::Unit => false,
            Fields::Named => {
                return Err(
                    EnumError { kind: EnumErrorKind::NamedFieldsNotSupported, variant: Some(i) },
                );
            },
        };
        list.push(FieldVariant { attr, ident: v.ident.clone(), has_field });
        i += 1;
    }
    Ok(list)
}

} // verus!
