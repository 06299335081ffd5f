use vstd::prelude::*;

verus! {

/// An enum whose variants can all be listed, and written to and read from
/// their labels.
pub trait IterableStringifyEnum: Sized {
    /// Every variant, in declaration order.
    spec fn spec_variants() -> Seq<Self>;

    /// The label of a variant.
    spec fn spec_label(v: Self) -> Seq<char>;

    /// The variant a text names, if any.
    spec fn spec_parse(text: Seq<char>) -> Option<Self>;

    fn iter_enum() -> (r: Vec<Self>)
        ensures
            r@ == Self::spec_variants(),
    ;

    /// The label of the variant (what converting it into a `String` gives).
    fn to_label(&self) -> (r: String)
        ensures
            r@ == Self::spec_label(*self),
    ;

    /// The variant `value` names; the text itself as the error when it
    /// names none.
    fn from_label(value: &str) -> (r: Result<Self, String>)
        ensures
            match Self::spec_parse(value@) {
                Some(v) => r == Ok::<Self, String>(v),
                None => r matches Err(e) && e@ == value@,
            },
    ;

    /// Reading a variant's label gives the variant back, and every variant
    /// is listed.
    proof fn lemma_label_round_trip(v: Self)
        ensures
            Self::spec_parse(Self::spec_label(v)) == Some(v),
            Self::spec_variants().contains(v),
    ;

    /// A text names a variant only when it is that variant's label.
    proof fn lemma_parse_only_labels(text: Seq<char>)
        ensures
            Self::spec_parse(text) matches Some(v) ==> Self::spec_label(v) == text,
    ;
}

} // verus!
