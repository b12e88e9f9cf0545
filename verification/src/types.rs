//! The NetCDF metadata that the CF helpers read: variables, their
//! dimensions and their attributes.

use vstd::prelude::*;

use crate::text::same_text;

verus! {

/// NetCDF external data types.
#[derive(Debug, Clone, Copy, PartialEq, Eq, Structural)]
pub enum NcType {
    Byte,
    Char,
    Short,
    Int,
    Float,
    Double,
    UByte,
    UShort,
    UInt,
    Int64,
    UInt64,
    String,
}

/// A named dimension of a variable.
#[derive(Debug, Clone)]
pub struct NcDimension {
    pub name: String,
    pub size: u64,
    pub is_unlimited: bool,
}

/// The value of an attribute: text, or an array of integers.
#[derive(Debug, Clone)]
pub enum NcAttrValue {
    Bytes(Vec<i8>),
    Chars(String),
    Shorts(Vec<i16>),
    Ints(Vec<i32>),
    UBytes(Vec<u8>),
    UShorts(Vec<u16>),
    UInts(Vec<u32>),
    Int64s(Vec<i64>),
    UInt64s(Vec<u64>),
}

/// A named attribute attached to a variable.
#[derive(Debug, Clone)]
pub struct NcAttribute {
    pub name: String,
    pub value: NcAttrValue,
}

/// A variable of a NetCDF file, as the header describes it.
#[derive(Debug, Clone)]
pub struct NcVariable {
    pub name: String,
    pub dimensions: Vec<NcDimension>,
    pub dtype: NcType,
    pub attributes: Vec<NcAttribute>,
    pub data_offset: u64,
    pub _data_size: u64,
    pub is_record_var: bool,
    pub record_size: u64,
}

/// The text that an attribute value holds, if it holds text.
pub open spec fn value_text(v: NcAttrValue) -> Option<Seq<char>> {
    match v {
        NcAttrValue::Chars(s) => Some(s@),
        _ => None,
    }
}

/// The first index at or after `i` of an attribute named `name`.
pub open spec fn attr_index_from(attrs: Seq<NcAttribute>, name: Seq<char>, i: int) -> Option<int>
    decreases attrs.len() - i,
{
    if i < 0 || i >= attrs.len() {
        None
    } else if attrs[i].name@ == name {
        Some(i)
    } else {
        attr_index_from(attrs, name, i + 1)
    }
}

/// The index of the first attribute named `name`.
pub open spec fn attr_index(attrs: Seq<NcAttribute>, name: Seq<char>) -> Option<int> {
    attr_index_from(attrs, name, 0)
}

/// The text of the first attribute named `name`, if there is one and its
/// value is text.
pub open spec fn attr_text(attrs: Seq<NcAttribute>, name: Seq<char>) -> Option<Seq<char>> {
    match attr_index(attrs, name) {
        Some(i) => value_text(attrs[i].value),
        None => None,
    }
}

impl NcAttrValue {
    /// The text of a character attribute; `None` for numeric values.
    pub fn as_string(&self) -> (r: Option<String>)
        ensures
            match r {
                Some(s) => value_text(*self) == Some(s@),
                None => value_text(*self) is None,
            },
    {
        match self {
            NcAttrValue::Chars(s) => Some(s.clone()),
            _ => None,
        }
    }
}

impl NcVariable {
    /// The first attribute of this variable named `name`.
    pub fn attribute(&self, name: &str) -> (r: Option<&NcAttribute>)
        ensures
            match attr_index(self.attributes@, name@) {
                Some(i) => r == Some(&self.attributes@[i]),
                None => r is None,
            },
    {
        let n = self.attributes.len();
        let mut i: usize = 0;
        while i < n
            invariant
                i <= n,
                n == self.attributes@.len(),
                attr_index(self.attributes@, name@) == attr_index_from(
                    self.attributes@,
                    name@,
                    i as int,
                ),
            decreases n - i,
        {
            if same_text(self.attributes[i].name.as_str(), name) {
                return Some(&self.attributes[i]);
            }
            i = i + 1;
        }
        None
    }
}

proof fn attr_index_from_first(attrs: Seq<NcAttribute>, name: Seq<char>, k: int, i: int)
    requires
        0 <= k <= i < attrs.len(),
        attrs[i].name@ == name,
        forall|j: int| 0 <= j < i ==> attrs[j].name@ != name,
    ensures
        attr_index_from(attrs, name, k) == Some(i),
    decreases i - k,
{
    if k < i {
        attr_index_from_first(attrs, name, k + 1, i);
    }
}

proof fn attr_index_from_absent(attrs: Seq<NcAttribute>, name: Seq<char>, k: int)
    requires
        0 <= k,
        forall|j: int| 0 <= j < attrs.len() ==> attrs[j].name@ != name,
    ensures
        attr_index_from(attrs, name, k) is None,
    decreases attrs.len() - k,
{
    if k < attrs.len() {
        attr_index_from_absent(attrs, name, k + 1);
    }
}

/// Attributes are looked up by name, the first of a name counting: where
/// attribute `i` is the first named `name`, the lookup finds it, and its
/// text is that attribute's value where the value is characters (none for
/// numeric values).
pub proof fn first_attribute_of_a_name_counts(attrs: Seq<NcAttribute>, name: Seq<char>, i: int)
    requires
        0 <= i < attrs.len(),
        attrs[i].name@ == name,
        forall|j: int| 0 <= j < i ==> attrs[j].name@ != name,
    ensures
        attr_index(attrs, name) == Some(i),
        attrs[i].value matches NcAttrValue::Chars(s) ==> attr_text(attrs, name) == Some(s@),
        !(attrs[i].value is Chars) ==> attr_text(attrs, name) is None,
{
    attr_index_from_first(attrs, name, 0, i);
}

/// Where no attribute has a name, the lookup finds none and there is no
/// text for it.
pub proof fn absent_attribute_is_not_found(attrs: Seq<NcAttribute>, name: Seq<char>)
    requires
        forall|j: int| 0 <= j < attrs.len() ==> attrs[j].name@ != name,
    ensures
        attr_index(attrs, name) is None,
        attr_text(attrs, name) is None,
{
    attr_index_from_absent(attrs, name, 0);
}

} // verus!
