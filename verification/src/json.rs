//! Parsed image names as pretty-printed JSON.
//!
//! The document's shape is decided here; the text itself is written by
//! `serde_json`, whose output the contracts refer to by name.

use crate::image_name::{ImageName, ImageNameView};
use vstd::prelude::*;

verus! {

/// `serde_json::Error`, the serializer's error. Its inside is not looked at:
/// a value is only carried through and turned into its message.
#[verifier::external_type_specification]
#[verifier::external_body]
pub struct ExJsonError(serde_json::Error);

/// One member of a JSON object as plain values: its key, and its value, a
/// string or, for `None`, `null`.
pub open spec fn member_view(member: (&str, Option<&str>)) -> (Seq<char>, Option<Seq<char>>) {
    (
        member.0@,
        match member.1 {
            Some(text) => Some(text@),
            None => None,
        },
    )
}

/// The members of a JSON object as plain values, in their order.
pub open spec fn members_view(members: Seq<(&str, Option<&str>)>) -> Seq<
    (Seq<char>, Option<Seq<char>>),
> {
    members.map_values(|m: (&str, Option<&str>)| member_view(m))
}

/// The members of several JSON objects as plain values, in their order.
pub open spec fn objects_view(objects: Seq<Vec<(&str, Option<&str>)>>) -> Seq<
    Seq<(Seq<char>, Option<Seq<char>>)>,
> {
    objects.map_values(|o: Vec<(&str, Option<&str>)>| members_view(o@))
}

/// What `serde_json::to_string_pretty` gives for a map that was filled with
/// the given members one after another: the text, or `None` where it fails.
pub uninterp spec fn pretty_object(members: Seq<(Seq<char>, Option<Seq<char>>)>) -> Option<
    Seq<char>,
>;

/// What `serde_json::to_string_pretty` gives for a list of maps, each filled
/// with the members of one object one after another: the text, or `None`
/// where it fails.
pub uninterp spec fn pretty_array(objects: Seq<Seq<(Seq<char>, Option<Seq<char>>)>>) -> Option<
    Seq<char>,
>;

/// Calls `serde_json::to_string_pretty` on a `BTreeMap` from the keys to the
/// values, which the serializer writes as one JSON object. The map holds its
/// keys in ascending order, one value for each. Believed, not proved: whether
/// text or an error comes back, and which text, depends on the members
/// alone. Nothing is claimed of what the text holds.
#[verifier::external_body]
fn object_to_json(members: &Vec<(&str, Option<&str>)>) -> (out: Result<String, serde_json::Error>)
    ensures
        match out {
            Ok(text) => pretty_object(members_view(members@)) == Some(text@),
            Err(_) => pretty_object(members_view(members@)) is None,
        },
{
    let object: std::collections::BTreeMap<&str, Option<&str>> = members.iter().copied().collect();
    serde_json::to_string_pretty(&object)
}

/// Calls `serde_json::to_string_pretty` on a list of `BTreeMap`s from the
/// keys to the values, which the serializer writes as one JSON array of
/// objects in the list's order. Each map holds its keys in ascending order,
/// one value for each. Believed, not proved: whether text or an error comes
/// back, and which text, depends on the objects' members alone. Nothing is
/// claimed of what the text holds.
#[verifier::external_body]
fn array_to_json(objects: &Vec<Vec<(&str, Option<&str>)>>) -> (out: Result<
    String,
    serde_json::Error,
>)
    ensures
        match out {
            Ok(text) => pretty_array(objects_view(objects@)) == Some(text@),
            Err(_) => pretty_array(objects_view(objects@)) is None,
        },
{
    let array: Vec<std::collections::BTreeMap<&str, Option<&str>>> = objects.iter().map(
        |o| o.iter().copied().collect(),
    ).collect();
    serde_json::to_string_pretty(&array)
}

/// The JSON object that stands for a parsed name: `repository`, a string,
/// then `tag`, a string or `null`.
pub open spec fn record(name: ImageNameView) -> Seq<(Seq<char>, Option<Seq<char>>)> {
    seq![("repository"@, Some(name.repository)), ("tag"@, name.tag)]
}

/// The values of a list of parsed names.
pub open spec fn views(images: Seq<ImageName>) -> Seq<ImageNameView> {
    images.map_values(|n: ImageName| n@)
}

/// The document for a list of parsed names. A single name is written as a
/// bare object unless an array is asked for; anything else, the empty list
/// too, as an array of objects in the list's order. `None` where the
/// serializer fails.
pub open spec fn document(images: Seq<ImageNameView>, always_array: bool) -> Option<Seq<char>> {
    if !always_array && images.len() == 1 {
        pretty_object(record(images[0]))
    } else {
        pretty_array(images.map_values(|n: ImageNameView| record(n)))
    }
}

/// The members of the JSON object that stands for `image`.
pub fn json_members<'a>(image: &ImageName<'a>) -> (members: Vec<(&'a str, Option<&'a str>)>)
    ensures
        members_view(members@) == record(image@),
{
    let mut members: Vec<(&'a str, Option<&'a str>)> = Vec::new();
    members.push(("repository", Some(image.repository)));
    members.push(("tag", image.tag));
    assert(members_view(members@) =~= record(image@));
    members
}

/// Turns what the serializer gave into the library's result: the text as it
/// is, or the serializer's error as its message.
pub fn text_or_message(written: Result<String, serde_json::Error>) -> (out: Result<String, String>)
    ensures
        written matches Ok(text) ==> out == Ok::<String, String>(text),
        written matches Err(e) ==> out matches Err(message)
            && vstd::string::to_string_from_display_ensures::<serde_json::Error>(&e, message),
{
    match written {
        Ok(text) => Ok(text),
        Err(e) => Err(e.to_string()),
    }
}

/// Renders parsed names as pretty-printed JSON: the document for `images`,
/// or, exactly where the serializer fails on it, the serializer's message.
pub fn to_json<'a>(images: &[ImageName<'a>], always_array: bool) -> (out: Result<String, String>)
    ensures
        match out {
            Ok(text) => document(views(images@), always_array) == Some(text@),
            Err(_) => document(views(images@), always_array) is None,
        },
{
    if !always_array && images.len() == 1 {
        let members = json_members(&images[0]);
        text_or_message(object_to_json(&members))
    } else {
        let mut objects: Vec<Vec<(&'a str, Option<&'a str>)>> = Vec::new();
        let mut i: usize = 0;
        while i < images.len()
            invariant
                i <= images.len(),
                objects@.len() == i,
                forall|k: int| 0 <= k < i ==> members_view(#[trigger] objects@[k]@) == record(images@[k]@),
            decreases images.len() - i,
        {
            objects.push(json_members(&images[i]));
            i += 1;
        }
        assert(objects_view(objects@) =~= views(images@).map_values(|n: ImageNameView| record(n)));
        text_or_message(array_to_json(&objects))
    }
}

} // verus!
