use vstd::prelude::*;

verus! {

/// An attribute of a variant, such as the language it is written in.
#[derive(Debug)]
pub struct VariantAttribute {
    pub key: String,
    pub value: String,
}

/// One variant of a localized text.
#[derive(Debug)]
pub struct TextVariant {
    pub attributes: Vec<VariantAttribute>,
    pub value: String,
}

/// One variant of a file: its name, media type and bytes.
#[derive(Debug)]
pub struct FileVariant {
    pub attributes: Vec<VariantAttribute>,
    pub name: Option<String>,
    pub media_type: Option<String>,
    pub content: Vec<u8>,
}

/// A text with one variant and no attributes, holding `value`.
pub open spec fn is_plain_text(t: Seq<TextVariant>, value: Seq<char>) -> bool {
    &&& t.len() == 1
    &&& t[0].attributes@.len() == 0
    &&& t[0].value@ == value
}

/// A text with one variant and no attributes.
pub fn plain_text(value: String) -> (r: Vec<TextVariant>)
    ensures
        is_plain_text(r@, value@),
{
    vec![TextVariant { attributes: Vec::new(), value }]
}

} // verus!

verus! {

/// The text an optional string holds.
pub open spec fn opt_text(o: Option<String>) -> Option<Seq<char>> {
    match o {
        Some(s) => Some(s@),
        None => None,
    }
}

/// A copy of a byte buffer.
pub fn copy_bytes(v: &Vec<u8>) -> (r: Vec<u8>)
    ensures
        r@ == v@,
{
    let mut r: Vec<u8> = Vec::with_capacity(v.len());
    let mut i: usize = 0;
    while i < v.len()
        invariant
            i <= v.len(),
            r@ == v@.take(i as int),
        decreases v.len() - i,
    {
        r.push(v[i]);
        i = i + 1;
        assert(r@ =~= v@.take(i as int));
    }
    assert(v@.take(i as int) =~= v@);
    r
}

} // verus!
