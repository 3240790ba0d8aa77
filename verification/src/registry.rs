//! The field registry: the caller-owned table declaring which fields exist,
//! their native representation, whether they are administratively enabled,
//! and which operators each one supports. The parser only reads it.

use vstd::prelude::*;
use crate::operator::Operator;

verus! {

/// The native representation of a field's value in a data record.
#[derive(Clone, Copy, Debug, PartialEq, Eq, Structural)]
pub enum FieldKind {
    Int64,
    Int32,
    OptionalInt32,
    Decimal64,
    Text,
    OptionalText,
}

/// Spec-level shape of a resolved field.
#[verifier::ext_equal]
pub ghost struct FieldView {
    pub name: Seq<char>,
    pub kind: FieldKind,
    pub content_length: bool,
}

/// A field reference as it stands in a parsed condition: the name from the
/// query text together with what the registry declared for it. When
/// `content_length` is set, text comparisons read the character count of the
/// field rather than its text.
#[derive(Debug, PartialEq)]
pub struct Field {
    pub name: String,
    pub kind: FieldKind,
    pub content_length: bool,
}

impl View for Field {
    type V = FieldView;

    open spec fn view(&self) -> FieldView {
        FieldView { name: self.name@, kind: self.kind, content_length: self.content_length }
    }
}

impl Clone for Field {
    /// A copy naming the same field.
    fn clone(&self) -> (r: Self)
        ensures
            r == *self,
    {
        Field { name: self.name.clone(), kind: self.kind, content_length: self.content_length }
    }
}

/// Spec-level shape of a field declaration.
#[verifier::ext_equal]
pub ghost struct DescriptorView {
    pub name: Seq<char>,
    pub kind: FieldKind,
    pub enabled: bool,
    pub content_length: bool,
    pub operators: Seq<Operator>,
}

/// One field declaration in the registry.
#[derive(Debug)]
pub struct FieldDescriptor {
    /// The name conditions refer to the field by.
    pub name: String,
    /// The native representation of the field in a data record.
    pub kind: FieldKind,
    /// Whether the field is administratively enabled.
    pub enabled: bool,
    /// Whether text comparisons on the field read its character count.
    pub content_length: bool,
    /// The operators the field may be compared with.
    pub operators: Vec<Operator>,
}

impl View for FieldDescriptor {
    type V = DescriptorView;

    open spec fn view(&self) -> DescriptorView {
        DescriptorView {
            name: self.name@,
            kind: self.kind,
            enabled: self.enabled,
            content_length: self.content_length,
            operators: self.operators@,
        }
    }
}

/// The registry the parser consults, owned and built by the caller.
#[derive(Debug)]
pub struct FieldRegistry {
    pub fields: Vec<FieldDescriptor>,
}

impl View for FieldRegistry {
    type V = Seq<DescriptorView>;

    open spec fn view(&self) -> Seq<DescriptorView> {
        self.fields@.map_values(|d: FieldDescriptor| d@)
    }
}

/// The first declaration carrying `name`, if any.
pub open spec fn spec_lookup(fields: Seq<DescriptorView>, name: Seq<char>) -> Option<DescriptorView>
    decreases fields.len(),
{
    if fields.len() == 0 {
        None
    } else if fields[0].name == name {
        Some(fields[0])
    } else {
        spec_lookup(fields.drop_first(), name)
    }
}

/// True when the two texts hold the same characters.
pub fn str_eq(a: &str, b: &str) -> (r: bool)
    ensures
        r == (a@ == b@),
{
    let alen = a.unicode_len();
    let blen = b.unicode_len();
    if alen != blen {
        assert(a@ != b@);
        return false;
    }
    let mut k: usize = 0;
    while k < alen
        invariant
            k <= alen,
            alen == a@.len(),
            alen == b@.len(),
            forall|j: int| 0 <= j < k ==> a@[j] == b@[j],
        decreases alen - k,
    {
        if a.get_char(k) != b.get_char(k) {
            assert(a@ != b@);
            return false;
        }
        k = k + 1;
    }
    proof {
        assert(a@ =~= b@);
    }
    true
}

impl FieldRegistry {
    /// Looks a field up by name, exactly as `spec_lookup` says.
    pub fn lookup(&self, name: &str) -> (r: Option<&FieldDescriptor>)
        ensures
            match r {
                Some(d) => spec_lookup(self@, name@) == Some(d@),
                None => spec_lookup(self@, name@) is None,
            },
    {
        proof {
            assert(self@.skip(0) =~= self@);
        }
        let mut k: usize = 0;
        while k < self.fields.len()
            invariant
                k <= self.fields.len(),
                spec_lookup(self@.skip(k as int), name@) == spec_lookup(self@, name@),
            decreases self.fields.len() - k,
        {
            if str_eq(self.fields[k].name.as_str(), name) {
                proof {
                    assert(self@.skip(k as int)[0] == self@[k as int]);
                }
                return Some(&self.fields[k]);
            }
            proof {
                assert(self@.skip(k as int)[0] == self@[k as int]);
                assert(self@.skip(k as int).drop_first() =~= self@.skip(k as int + 1));
            }
            k = k + 1;
        }
        proof {
            assert(self@.skip(k as int).len() == 0);
        }
        None
    }
}

} // verus!
