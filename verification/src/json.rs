//! The parts of JSON documents that the library reads.

use crate::text;
use vstd::prelude::*;

verus! {

/// A member of a JSON object, as far as it is read.
#[derive(Debug, Clone)]
pub enum JsonMember {
    /// A string.
    Text(String),
    /// A whole number that is not negative.
    Unsigned(u64),
    /// An array, with its strings; its other elements are not told apart.
    List(Vec<Option<String>>),
    /// The null value.
    Null,
    /// Anything else.
    Other,
}

/// A member of a JSON object, over views.
pub enum MemberView {
    Text(Seq<char>),
    Unsigned(u64),
    List(Seq<Option<Seq<char>>>),
    Null,
    Other,
}

impl View for JsonMember {
    type V = MemberView;

    open spec fn view(&self) -> MemberView {
        match self {
            JsonMember::Text(value) => MemberView::Text(value@),
            JsonMember::Unsigned(value) => MemberView::Unsigned(*value),
            JsonMember::List(items) => MemberView::List(
                items@.map_values(|item: Option<String>| text::optional(item)),
            ),
            JsonMember::Null => MemberView::Null,
            JsonMember::Other => MemberView::Other,
        }
    }
}

/// The members of a JSON object by their names. Where a name comes twice, the
/// later member counts.
pub open spec fn members(pairs: Seq<(String, JsonMember)>) -> Map<Seq<char>, MemberView>
    decreases pairs.len(),
{
    if pairs.len() == 0 {
        Map::empty()
    } else {
        members(pairs.drop_last()).insert(pairs.last().0@, pairs.last().1@)
    }
}

/// The members of the JSON object that a text spells; none where it spells
/// another kind of value. `None` where it is not JSON.
pub uninterp spec fn json_members(source: Seq<char>) -> Option<Map<Seq<char>, MemberView>>;

/// What a list of members, or the lack of one, holds.
pub open spec fn member_map(pairs: Option<Vec<(String, JsonMember)>>) -> Option<
    Map<Seq<char>, MemberView>,
> {
    match pairs {
        Some(pairs) => Some(members(pairs@)),
        None => None,
    }
}

/// `serde_json::from_str` into a `serde_json::Value`, whose members are handed
/// out as far as the library reads them. What a text spells is named, not
/// spelled out: it depends on the text alone.
#[verifier::external_body]
pub(crate) fn parse_members(source: &str) -> (res: Option<Vec<(String, JsonMember)>>)
    ensures
        member_map(res) == json_members(source@),
{
    let value: serde_json::Value = serde_json::from_str(source).ok()?;
    let object = value.as_object().cloned().unwrap_or_default();
    let member = |value: serde_json::Value| match value {
        serde_json::Value::String(text) => JsonMember::Text(text),
        serde_json::Value::Number(number) => number.as_u64().map_or(JsonMember::Other, JsonMember::Unsigned),
        serde_json::Value::Array(items) => {
            JsonMember::List(items.iter().map(|item| item.as_str().map(String::from)).collect())
        }
        serde_json::Value::Null => JsonMember::Null,
        _ => JsonMember::Other,
    };
    Some(object.into_iter().map(|(name, value)| (name, member(value))).collect())
}

/// What the members of an object hold, in their order.
pub open spec fn pairs_view(pairs: Seq<(String, JsonMember)>) -> Seq<(Seq<char>, MemberView)> {
    pairs.map_values(|pair: (String, JsonMember)| (pair.0@, pair.1@))
}

/// Whether all members of an object are of a kind that JSON spells, under
/// names that do not begin with a dollar sign.
pub open spec fn spelled_out(pairs: Seq<(Seq<char>, MemberView)>) -> bool {
    forall|i: int|
        0 <= i < pairs.len() ==> {
            &&& !((#[trigger] pairs[i]).1 is Other)
            &&& !(pairs[i].0.len() > 0 && pairs[i].0[0] == '$')
        }
}

/// The JSON text of an object with these members, indented.
pub uninterp spec fn json_pretty(pairs: Seq<(Seq<char>, MemberView)>) -> Seq<char>;

/// `serde_json::to_string_pretty` of an object with these members; of a name
/// that comes twice the later member is written, and a member of no known kind
/// is written as null. The text is named, not spelled out: it depends on the
/// members alone. Read again, alone or with a line end behind it, it gives the
/// members back where they are of a kind that JSON spells; names with a dollar
/// sign in front are left out, for some have a meaning of their own there.
#[verifier::external_body]
pub(crate) fn to_pretty_text(pairs: &Vec<(String, JsonMember)>) -> (res: String)
    ensures
        res@ == json_pretty(pairs_view(pairs@)),
        spelled_out(pairs_view(pairs@)) ==> json_members(res@) == Some(members(pairs@)),
        spelled_out(pairs_view(pairs@)) ==> json_members(res@ + "\n"@) == Some(members(pairs@)),
{
    let value = |member: &JsonMember| match member {
        JsonMember::Text(text) => serde_json::Value::from(text.as_str()),
        JsonMember::Unsigned(number) => serde_json::Value::from(*number),
        JsonMember::List(items) => serde_json::Value::from(items.clone()),
        JsonMember::Null | JsonMember::Other => serde_json::Value::Null,
    };
    let object = pairs.iter().map(|(name, member)| (name.clone(), value(member))).collect();
    serde_json::to_string_pretty(&serde_json::Value::Object(object)).unwrap_or_default()
}

/// Put one more string member into an object.
pub(crate) fn push_text(pairs: &mut Vec<(String, JsonMember)>, name: &str, value: String)
    ensures
        members(final(pairs)@) == members(old(pairs)@).insert(name@, MemberView::Text(value@)),
        pairs_view(final(pairs)@) == pairs_view(old(pairs)@).push(
            (name@, MemberView::Text(value@)),
        ),
{
    let ghost before = pairs@;
    pairs.push((name.to_owned(), JsonMember::Text(value)));
    assert(pairs@.drop_last() =~= before);
    assert(pairs_view(pairs@) =~= pairs_view(before).push((name@, MemberView::Text(value@))));
}

/// Put one more number member into an object.
pub(crate) fn push_number(pairs: &mut Vec<(String, JsonMember)>, name: &str, value: u64)
    ensures
        members(final(pairs)@) == members(old(pairs)@).insert(name@, MemberView::Unsigned(value)),
{
    let ghost before = pairs@;
    pairs.push((name.to_owned(), JsonMember::Unsigned(value)));
    assert(pairs@.drop_last() =~= before);
}

/// The member of this name, where there is one.
pub open spec fn member_of(all: Map<Seq<char>, MemberView>, name: Seq<char>) -> Option<MemberView> {
    if all.dom().contains(name) {
        Some(all[name])
    } else {
        None
    }
}

/// Find the member of this name.
pub(crate) fn find_member<'a>(pairs: &'a Vec<(String, JsonMember)>, name: &str) -> (res: Option<
    &'a JsonMember,
>)
    ensures
        res is Some <==> member_of(members(pairs@), name@) is Some,
        res matches Some(member) ==> member_of(members(pairs@), name@) == Some(member@),
{
    let mut i: usize = pairs.len();
    assert(pairs@.take(i as int) =~= pairs@);
    while i > 0
        invariant
            i <= pairs@.len(),
            member_of(members(pairs@), name@) == member_of(members(pairs@.take(i as int)), name@),
        decreases i,
    {
        let ghost part = pairs@.take(i as int);
        assert(part.drop_last() =~= pairs@.take(i - 1));
        assert(part.last() == pairs@[i - 1]);
        if text::equal(pairs[i - 1].0.as_str(), name) {
            return Some(&pairs[i - 1].1);
        }
        i = i - 1;
    }
    None
}

/// Of two members with one name the later counts, and a member of one name
/// leaves those of the others as they are.
pub proof fn later_members_count(
    pairs: Seq<(String, JsonMember)>,
    pair: (String, JsonMember),
    name: Seq<char>,
)
    ensures
        member_of(members(pairs.push(pair)), pair.0@) == Some(pair.1@),
        name != pair.0@ ==> member_of(members(pairs.push(pair)), name) == member_of(
            members(pairs),
            name,
        ),
        member_of(members(Seq::<(String, JsonMember)>::empty()), name) is None,
{
    assert(pairs.push(pair).drop_last() =~= pairs);
}

} // verus!
