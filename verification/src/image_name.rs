//! Image names and the rule that splits them at the rightmost colon.

use vstd::prelude::*;
use vstd::std_specs::iter::IteratorSpec;
use vstd::string::StrSliceExecFns;

verus! {

/// A parsed image name.
///
/// Both parts borrow from the string that was parsed. Nothing is validated:
/// the parts are whatever stands on either side of the rightmost `:`.
#[derive(Debug, Clone, PartialEq, Eq)]
pub struct ImageName<'a> {
    /// The name before the tag: slash-separated components, optionally
    /// prefixed by a registry host.
    pub repository: &'a str,
    /// The label after the rightmost `:`; `None` where the name holds no `:`.
    /// A name that ends in `:` has the empty tag, not `None`.
    pub tag: Option<&'a str>,
}

/// The mathematical value of an [`ImageName`]: its parts as character sequences.
pub struct ImageNameView {
    pub repository: Seq<char>,
    pub tag: Option<Seq<char>>,
}

impl ImageNameView {
    /// Whether parsing can give this value: a tag holds no colon, and without
    /// a tag the repository holds none.
    pub open spec fn well_formed(self) -> bool {
        match self.tag {
            Some(t) => !t.contains(':'),
            None => !self.repository.contains(':'),
        }
    }
}

impl<'a> View for ImageName<'a> {
    type V = ImageNameView;

    open spec fn view(&self) -> ImageNameView {
        ImageNameView {
            repository: self.repository@,
            tag: match self.tag {
                Some(t) => Some(t@),
                None => None,
            },
        }
    }
}

/// `i` is the place of the rightmost `:` of `s`.
pub open spec fn is_last_colon(s: Seq<char>, i: int) -> bool {
    &&& 0 <= i < s.len()
    &&& s[i] == ':'
    &&& forall|j: int| i < j < s.len() ==> s[j] != ':'
}

/// What parsing makes of `s`: without a `:` the whole of `s` is the
/// repository and there is no tag; otherwise `s` is cut at its rightmost `:`,
/// which belongs to neither part.
pub open spec fn parsed(s: Seq<char>) -> ImageNameView {
    if s.contains(':') {
        let i = choose|i: int| is_last_colon(s, i);
        ImageNameView { repository: s.subrange(0, i), tag: Some(s.subrange(i + 1, s.len() as int)) }
    } else {
        ImageNameView { repository: s, tag: None }
    }
}

/// The text that a parsed name stands for: the repository, followed by `:`
/// and the tag where there is one.
pub open spec fn joined(name: ImageNameView) -> Seq<char> {
    match name.tag {
        Some(t) => name.repository + seq![':'] + t,
        None => name.repository,
    }
}

/// A sequence has at most one rightmost colon.
proof fn lemma_last_colon_unique(s: Seq<char>, i: int, j: int)
    requires
        is_last_colon(s, i),
        is_last_colon(s, j),
    ensures
        i == j,
{
}

/// A sequence that holds a colon has a rightmost one.
proof fn lemma_last_colon_exists(s: Seq<char>) -> (i: int)
    requires
        s.contains(':'),
    ensures
        is_last_colon(s, i),
    decreases s.len(),
{
    let k = choose|k: int| 0 <= k < s.len() && s[k] == ':';
    if s.last() == ':' {
        s.len() - 1
    } else {
        let t = s.drop_last();
        assert(t[k] == ':');
        let i = lemma_last_colon_exists(t);
        assert forall|j: int| i < j < s.len() implies s[j] != ':' by {
            if j < t.len() {
                assert(t[j] != ':');
            }
        }
        i
    }
}

/// A name is cut at its rightmost colon, wherever that is: the repository is
/// all that stands before it, the tag all that stands after it.
pub proof fn lemma_parsed_at_last_colon(s: Seq<char>, i: int)
    requires
        is_last_colon(s, i),
    ensures
        parsed(s).repository == s.subrange(0, i),
        parsed(s).tag == Some(s.subrange(i + 1, s.len() as int)),
{
    assert(s.contains(':'));
    let k = choose|k: int| is_last_colon(s, k);
    lemma_last_colon_unique(s, k, i);
}

/// A name without a colon is all repository and has no tag.
pub proof fn lemma_parsed_without_colon(s: Seq<char>)
    requires
        !s.contains(':'),
    ensures
        parsed(s).repository == s,
        parsed(s).tag is None,
{
}

/// What parsing does to any name: the parts, put together again with the
/// colon between them, are the name; a name has a tag exactly if it holds a
/// colon; and a tag never holds one.
pub proof fn lemma_parsed_splits(s: Seq<char>)
    ensures
        joined(parsed(s)) == s,
        parsed(s).tag is Some <==> s.contains(':'),
        parsed(s).tag matches Some(t) ==> !t.contains(':'),
{
    if s.contains(':') {
        let i = lemma_last_colon_exists(s);
        lemma_parsed_at_last_colon(s, i);
        let t = s.subrange(i + 1, s.len() as int);
        assert(joined(parsed(s)) =~= s);
        assert forall|j: int| 0 <= j < t.len() implies t[j] != ':' by {
            assert(t[j] == s[i + 1 + j]);
        }
    }
}

/// A repository and a colon-free tag, joined by a colon, parse back into
/// exactly those two parts, whatever colons the repository holds.
pub proof fn lemma_parsed_of_joined(repository: Seq<char>, tag: Seq<char>)
    requires
        !tag.contains(':'),
    ensures
        parsed(repository + seq![':'] + tag).repository == repository,
        parsed(repository + seq![':'] + tag).tag == Some(tag),
{
    let s = repository + seq![':'] + tag;
    let i = repository.len() as int;
    assert(s[i] == ':');
    assert forall|j: int| i < j < s.len() implies s[j] != ':' by {
        assert(s[j] == tag[j - i - 1]);
        assert(tag.contains(tag[j - i - 1]));
    }
    lemma_parsed_at_last_colon(s, i);
    assert(s.subrange(0, i) =~= repository);
    assert(s.subrange(i + 1, s.len() as int) =~= tag);
}

/// Parsing is stable: the text that a parsed name stands for parses into that
/// same name again.
pub proof fn lemma_reparse_is_stable(s: Seq<char>)
    ensures
        parsed(joined(parsed(s))) == parsed(s),
        parsed(s).well_formed(),
{
    lemma_parsed_splits(s);
}

/// The well-formed values are exactly those that their own text parses into.
pub proof fn lemma_well_formed_iff_stable(name: ImageNameView)
    ensures
        name.well_formed() <==> parsed(joined(name)) == name,
{
    lemma_parsed_splits(joined(name));
    match name.tag {
        Some(t) => {
            if !t.contains(':') {
                lemma_parsed_of_joined(name.repository, t);
            }
        },
        None => {},
    }
}

impl<'a> ImageName<'a> {
    /// Parses an image name. Every string parses: one without a `:` is all
    /// repository, any other is cut at its rightmost `:`.
    ///
    /// The colon before a registry's port is a colon like any other: with no
    /// tag behind it, `host:5000/app` has the repository `host` and the tag
    /// `5000/app`.
    pub fn parse(image: &'a str) -> (name: ImageName<'a>)
        ensures
            name@ == parsed(image@),
            !image@.contains(':') ==> name.tag is None && name.repository@ == image@,
            image@.contains(':') ==> name.tag is Some && !name.tag.unwrap()@.contains(':'),
            joined(name@) == image@,
            name@.well_formed(),
    {
        proof {
            lemma_parsed_splits(image@);
        }
        let n: usize = image.unicode_len();
        let mut chars = image.chars();
        let mut seen: usize = 0;
        let mut last: Option<usize> = None;
        loop
            invariant
                n == image@.len(),
                seen <= n,
                chars.remaining() == image@.subrange(seen as int, n as int),
                last matches Some(k) ==> k < seen && image@[k as int] == ':',
                forall|j: int|
                    (match last {
                        Some(k) => k < j,
                        None => 0 <= j,
                    }) && j < seen ==> image@[j] != ':',
            ensures
                seen == n,
            decreases n - seen,
        {
            match chars.next() {
                Some(c) => {
                    if c == ':' {
                        last = Some(seen);
                    }
                    seen = seen + 1;
                },
                None => {
                    break;
                },
            }
        }
        match last {
            Some(k) => {
                proof {
                    lemma_parsed_at_last_colon(image@, k as int);
                }
                ImageName {
                    repository: image.substring_char(0, k),
                    tag: Some(image.substring_char(k + 1, n)),
                }
            },
            None => ImageName { repository: image, tag: None },
        }
    }
}

/// Parses an image name; the same as [`ImageName::parse`].
pub fn parse<'a>(image: &'a str) -> (name: ImageName<'a>)
    ensures
        name@ == parsed(image@),
        !image@.contains(':') ==> name.tag is None && name.repository@ == image@,
        image@.contains(':') ==> name.tag is Some && !name.tag.unwrap()@.contains(':'),
        joined(name@) == image@,
        name@.well_formed(),
{
    ImageName::parse(image)
}

} // verus!
