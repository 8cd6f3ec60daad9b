//! The URL of a LiveKit service, with the token that a client joins by in its query.

use crate::text;
use vstd::prelude::*;

verus! {

/// `url::Url`, a parsed URL.
#[verifier::external_type_specification]
#[verifier::external_body]
pub struct ExUrl(url::Url);

/// `url::ParseError`, why a text is no absolute URL.
#[verifier::external_type_specification]
#[verifier::external_body]
pub struct ExParseError(url::ParseError);

/// The serialization of a URL, which is all that two URLs are told apart by.
pub uninterp spec fn url_text(url: url::Url) -> Seq<char>;

/// The serialization of the absolute URL that `url::Url::parse` reads in `text`, or `None` where it
/// refuses the text.
pub uninterp spec fn url_parsed(text: Seq<char>) -> Option<Seq<char>>;

/// The names and values that `url::Url::query_pairs` gives for the URL of serialization `url`.
pub uninterp spec fn url_pairs(url: Seq<char>) -> Seq<(Seq<char>, Seq<char>)>;

/// The serialization of the URL of serialization `url` after `append_pair` on its
/// `url::Url::query_pairs_mut`.
pub uninterp spec fn url_with_pair(url: Seq<char>, name: Seq<char>, value: Seq<char>) -> Seq<char>;

/// A URL up to its fragment.
pub open spec fn before_fragment(url: Seq<char>) -> Seq<char> {
    text::before_first(url, '#')
}

/// The fragment of a URL with the mark before it, or nothing where it has none.
pub open spec fn fragment_part(url: Seq<char>) -> Seq<char> {
    url.skip(before_fragment(url).len() as int)
}

/// A URL up to its query and its fragment: the scheme, the host, the port and the path.
pub open spec fn before_query(url: Seq<char>) -> Seq<char> {
    text::before_first(before_fragment(url), '?')
}

/// A URL has a query, be it an empty one.
pub open spec fn has_query(url: Seq<char>) -> bool {
    before_query(url).len() < before_fragment(url).len()
}

/// A byte that a query holds as one: a letter, a digit, one of four marks, or a space, which becomes
/// a plus sign. Any other takes three.
pub open spec fn takes_one_byte(byte: u8) -> bool {
    ||| 0x30 <= byte <= 0x39
    ||| 0x41 <= byte <= 0x5A
    ||| 0x61 <= byte <= 0x7A
    ||| byte == 0x2A
    ||| byte == 0x2D
    ||| byte == 0x2E
    ||| byte == 0x5F
    ||| byte == 0x20
}

/// How many bytes a name or a value takes in a query.
pub open spec fn form_length(bytes: Seq<u8>) -> int
    decreases bytes.len(),
{
    if bytes.len() == 0 {
        0
    } else {
        form_length(bytes.drop_last()) + if takes_one_byte(bytes.last()) {
            1int
        } else {
            3int
        }
    }
}

/// How many bytes a pair adds to a URL: the name, an equals sign and the value, after a question mark
/// where there is no query and an ampersand where the query is not empty.
pub open spec fn pair_length(url: Seq<char>, name: Seq<char>, value: Seq<char>) -> int {
    let separator = if has_query(url) && before_query(url).len() + 1 == before_fragment(url).len() {
        0int
    } else {
        1int
    };
    separator + form_length(vstd::utf8::encode_utf8(name)) + 1 + form_length(
        vstd::utf8::encode_utf8(value),
    )
}

/// 32 bits can count where the parts of a URL begin when a pair is added to its query: the fragment,
/// which the pair moves, or else the query, where there was none.
pub open spec fn has_room_for_pair(url: Seq<char>, name: Seq<char>, value: Seq<char>) -> bool {
    let bytes = vstd::utf8::encode_utf8(before_fragment(url)).len();
    if before_fragment(url).len() < url.len() {
        bytes + pair_length(url, name, value) <= u32::MAX
    } else {
        has_query(url) || bytes <= u32::MAX
    }
}

/// Calls `url::Url::parse`. Which texts are URLs and how they are normalized goes by the name
/// `url_parsed`; which error comes is left unsaid.
#[verifier::external_body]
fn parse_url(text: &str) -> (result: Result<url::Url, url::ParseError>)
    ensures
        match result {
            Ok(url) => url_parsed(text@) == Some(url_text(url)),
            Err(_) => url_parsed(text@) is None,
        },
{
    url::Url::parse(text)
}

/// The text of each name and value.
pub open spec fn pair_texts(pairs: Seq<(String, String)>) -> Seq<(Seq<char>, Seq<char>)> {
    pairs.map_values(|pair: (String, String)| (pair.0@, pair.1@))
}

/// Calls `url::Url::query_pairs` and takes all that it yields: the names and values of the query, in
/// their order.
#[verifier::external_body]
fn query_pairs(url: &url::Url) -> (pairs: Vec<(String, String)>)
    ensures
        pair_texts(pairs@) == url_pairs(url_text(*url)),
{
    url.query_pairs().into_owned().collect()
}

/// Calls `append_pair` on `url::Url::query_pairs_mut`: the query gets one more pair, after those that
/// it has, and what stands before the query and the fragment stays. The offsets of the query and of
/// the fragment in a URL are of 32 bits, and setting one that overflows panics: that of the fragment
/// is set where there is one, that of the query where there was none.
#[verifier::external_body]
fn append_query_pair(url: &mut url::Url, name: &str, value: &str)
    requires
        has_room_for_pair(url_text(*old(url)), name@, value@),
    ensures
        url_text(*final(url)) == url_with_pair(url_text(*old(url)), name@, value@),
        url_pairs(url_text(*final(url))) == url_pairs(url_text(*old(url))).push((name@, value@)),
        before_query(url_text(*final(url))) == before_query(url_text(*old(url))),
        fragment_part(url_text(*final(url))) == fragment_part(url_text(*old(url))),
{
    url.query_pairs_mut().append_pair(name, value);
}

/// Where `url` is read as a URL again, its query has the same pairs.
pub open spec fn keeps_pairs_when_read(url: Seq<char>) -> bool {
    url_parsed(url) matches Some(again) ==> url_pairs(again) == url_pairs(url)
}

/// Calls `url::Url::as_str`: the serialization of `url`. The query in it stands after the first
/// question mark and holds only what a query keeps as it is, so that reading the serialization again
/// finds the same pairs, if it is accepted; that it is, or that all else is the same, is left unsaid.
#[verifier::external_body]
fn serialized(url: &url::Url) -> (text: &str)
    ensures
        text@ == url_text(*url),
        keeps_pairs_when_read(text@),
{
    url.as_str()
}

/// Some pair of a query is named `access_token`.
pub open spec fn has_access_token(pairs: Seq<(Seq<char>, Seq<char>)>) -> bool {
    exists|i: int| 0 <= i < pairs.len() && (#[trigger] pairs[i]).0 == "access_token"@
}

/// The service URL with the token in its query: as it is where it names an access token already,
/// else with one more pair.
pub open spec fn authenticated(url: Seq<char>, token: Seq<char>) -> Seq<char> {
    if has_access_token(url_pairs(url)) {
        url
    } else {
        url_with_pair(url, "access_token"@, token)
    }
}

/// The pairs of a query with the token among them: as they are where some pair is named
/// `access_token` already, else with one more.
pub open spec fn pairs_with_token(pairs: Seq<(Seq<char>, Seq<char>)>, token: Seq<char>) -> Seq<
    (Seq<char>, Seq<char>),
> {
    if has_access_token(pairs) {
        pairs
    } else {
        pairs.push(("access_token"@, token))
    }
}

/// `result` is the URL `parsed` with the token in its query: the pairs are those of the query with
/// the token among them, and all else is as it was.
pub open spec fn is_authenticated(parsed: Seq<char>, token: Seq<char>, result: Seq<char>) -> bool {
    &&& result == authenticated(parsed, token)
    &&& url_pairs(result) == pairs_with_token(url_pairs(parsed), token)
    &&& has_access_token(url_pairs(result))
    &&& before_query(result) == before_query(parsed)
    &&& fragment_part(result) == fragment_part(parsed)
}

/// A token can be added to the query of `url`, or need not be.
pub open spec fn has_room_for_token(url: Seq<char>, token: Seq<char>) -> bool {
    has_access_token(url_pairs(url)) || has_room_for_pair(url, "access_token"@, token)
}

/// Whether some pair of a query is named `access_token`.
pub fn names_access_token(pairs: &Vec<(String, String)>) -> (found: bool)
    ensures
        found == has_access_token(pair_texts(pairs@)),
{
    let name = "access_token".to_owned();
    let mut at: usize = 0;
    while at < pairs.len()
        invariant
            at <= pairs@.len(),
            name@ == "access_token"@,
            forall|i: int| 0 <= i < at ==> (#[trigger] pair_texts(pairs@)[i]).0 != name@,
        decreases pairs@.len() - at,
    {
        if pairs[at].0 == name {
            proof {
                assert(pair_texts(pairs@)[at as int].0 == name@);
            }
            return true;
        }
        at = at + 1;
    }
    false
}

/// Puts `token` into the query of `service_url` under the name `access_token`, unless the query has
/// that name already. The URL comes out normalized either way.
///
/// 32 bits must be able to count where the parts of the URL begin once the token is in its query.
pub fn ensure_access_token_query(service_url: &str, token: &str) -> (result: Result<
    String,
    url::ParseError,
>)
    requires
        url_parsed(service_url@) matches Some(url) ==> has_room_for_token(url, token@),
    ensures
        match result {
            Ok(text) => {
                &&& url_parsed(service_url@) is Some
                &&& is_authenticated(url_parsed(service_url@)->0, token@, text@)
                &&& keeps_pairs_when_read(text@)
            },
            Err(_) => url_parsed(service_url@) is None,
        },
{
    let mut url = match parse_url(service_url) {
        Ok(url) => url,
        Err(error) => return Err(error),
    };
    let pairs = query_pairs(&url);
    if !names_access_token(&pairs) {
        let ghost before = url_pairs(url_text(url));
        append_query_pair(&mut url, "access_token", token);
        proof {
            let after = url_pairs(url_text(url));
            assert(after[before.len() as int].0 == "access_token"@);
        }
    }
    Ok(serialized(&url).to_owned())
}

/// How many bytes a name or a value takes in a query.
pub fn form_encoded_length(text: &str) -> (length: u128)
    ensures
        length == form_length(vstd::utf8::encode_utf8(text@)),
        length <= 3 * usize::MAX,
{
    let bytes = text.as_bytes();
    let mut at: usize = 0;
    let mut length: u128 = 0;
    proof {
        assert(bytes@.take(0) =~= Seq::<u8>::empty());
    }
    while at < bytes.len()
        invariant
            at <= bytes@.len(),
            length == form_length(bytes@.take(at as int)),
            length <= 3 * at,
        decreases bytes@.len() - at,
    {
        let byte: u8 = bytes[at];
        proof {
            let taken = bytes@.take(at + 1);
            assert(taken.drop_last() =~= bytes@.take(at as int));
            assert(taken.last() == byte);
        }
        let kept = (0x30 <= byte && byte <= 0x39) || (0x41 <= byte && byte <= 0x5A) || (0x61 <= byte
            && byte <= 0x7A) || byte == 0x2A || byte == 0x2D || byte == 0x2E || byte == 0x5F
            || byte == 0x20;
        if kept {
            length = length + 1;
        } else {
            length = length + 3;
        }
        at = at + 1;
    }
    proof {
        assert(bytes@.take(at as int) =~= bytes@);
    }
    length
}

/// Whether [`ensure_access_token_query`] can be called: 32 bits can count where the parts of the URL
/// begin once the token is in its query, or the text is no URL.
pub fn has_room(service_url: &str, token: &str) -> (yes: bool)
    ensures
        yes == match url_parsed(service_url@) {
            Some(url) => has_room_for_token(url, token@),
            None => true,
        },
{
    let url = match parse_url(service_url) {
        Ok(url) => url,
        Err(_) => return true,
    };
    let pairs = query_pairs(&url);
    if names_access_token(&pairs) {
        return true;
    }
    let text = serialized(&url);
    let head = text::text_before_first(text, '#');
    let head_length: usize = head.unicode_len();
    let path_length: usize = text::text_before_first(head, '?').unicode_len();
    let bytes: u128 = head.as_bytes().len() as u128;
    if head_length == text.unicode_len() {
        return path_length < head_length || bytes <= u32::MAX as u128;
    }
    let separator: u128 = if path_length < head_length && head_length - path_length == 1 {
        0
    } else {
        1
    };
    let added: u128 = separator + form_encoded_length("access_token") + 1 + form_encoded_length(
        token,
    );
    bytes + added <= u32::MAX as u128
}

/// A token is added once: where a URL that came out of [`ensure_access_token_query`] is given a token
/// again, none is added and none replaced. What comes out then is the URL as it is read again, so it
/// stays as it is where it is read as itself.
///
/// Not every URL is: `file://h//C:/x` is read as `file://h/C:/x`, and that as `file:///C:/x`.
pub proof fn law_token_is_added_once(
    parsed: Seq<char>,
    token: Seq<char>,
    once: Seq<char>,
    again: Seq<char>,
    other: Seq<char>,
)
    requires
        is_authenticated(parsed, token, once),
        keeps_pairs_when_read(once),
        url_parsed(once) == Some(again),
    ensures
        has_room_for_token(again, other),
        is_authenticated(again, other, again),
        url_pairs(again) == pairs_with_token(url_pairs(parsed), token),
        again == once ==> is_authenticated(again, other, once),
{
}

/// A query has a token exactly where one of its pairs has the whole name `access_token`, whatever
/// stands beside it and whatever its value.
pub proof fn law_token_is_found_by_its_name(
    name: Seq<char>,
    value: Seq<char>,
    first: Seq<(Seq<char>, Seq<char>)>,
    second: Seq<(Seq<char>, Seq<char>)>,
)
    ensures
        !has_access_token(Seq::empty()),
        has_access_token(seq![(name, value)]) <==> name == "access_token"@,
        has_access_token(first + second) <==> has_access_token(first) || has_access_token(second),
{
    let one = seq![(name, value)];
    assert(one[0].0 == name);
    if has_access_token(first) {
        let at = choose|i: int| 0 <= i < first.len() && (#[trigger] first[i]).0 == "access_token"@;
        assert((first + second)[at].0 == "access_token"@);
    }
    if has_access_token(second) {
        let at = choose|i: int|
            0 <= i < second.len() && (#[trigger] second[i]).0 == "access_token"@;
        assert((first + second)[first.len() + at].0 == "access_token"@);
    }
    if has_access_token(first + second) {
        let both = first + second;
        let at = choose|i: int| 0 <= i < both.len() && (#[trigger] both[i]).0 == "access_token"@;
        if at < first.len() {
            assert(first[at].0 == "access_token"@);
        } else {
            assert(second[at - first.len()].0 == "access_token"@);
        }
    }
}

/// A URL that names an access token stays as it is. Any other gets one more pair, the token under the
/// name `access_token`, behind all pairs that it has, and keeps what stands before its query and its
/// fragment.
pub proof fn law_token_goes_into_the_query(parsed: Seq<char>, token: Seq<char>, result: Seq<char>)
    requires
        is_authenticated(parsed, token, result),
    ensures
        (exists|i: int|
            0 <= i < url_pairs(parsed).len() && (#[trigger] url_pairs(parsed)[i]).0
                == "access_token"@) ==> result == parsed,
        (forall|i: int|
            0 <= i < url_pairs(parsed).len() ==> (#[trigger] url_pairs(parsed)[i]).0
                != "access_token"@) ==> result == url_with_pair(parsed, "access_token"@, token)
            && url_pairs(result) == url_pairs(parsed).push(("access_token"@, token)),
        url_pairs(parsed).is_prefix_of(url_pairs(result)),
        exists|i: int|
            0 <= i < url_pairs(result).len() && (#[trigger] url_pairs(result)[i]).0
                == "access_token"@,
        before_query(result) == before_query(parsed),
        fragment_part(result) == fragment_part(parsed),
{
}

/// Names and values are taken as they are, in their order.
pub proof fn law_pairs_are_taken_as_given(pairs: Seq<(String, String)>, i: int)
    requires
        0 <= i < pairs.len(),
    ensures
        pair_texts(pairs).len() == pairs.len(),
        pair_texts(pairs)[i].0 == pairs[i].0@,
        pair_texts(pairs)[i].1 == pairs[i].1@,
{
}

/// A URL is what stands before its fragment and the fragment; the fragment begins with the first
/// number sign, and the query with the first question mark before that.
pub proof fn law_parts_of_a_url(url: Seq<char>)
    ensures
        before_fragment(url) + fragment_part(url) == url,
        !before_fragment(url).contains('#'),
        fragment_part(url).len() > 0 <==> url.contains('#'),
        fragment_part(url).len() > 0 ==> fragment_part(url)[0] == '#',
        before_query(url).is_prefix_of(before_fragment(url)),
        !before_query(url).contains('?'),
        has_query(url) <==> before_fragment(url).contains('?'),
        has_query(url) ==> before_fragment(url)[before_query(url).len() as int] == '?',
{
    text::law_before_first_stops_at_the_mark(url, '#');
    text::law_before_first_stops_at_the_mark(before_fragment(url), '?');
    assert(before_fragment(url) + fragment_part(url) =~= url);
}

/// The length of a name or a value in a query is the sum over its bytes: one for a letter, a digit, a
/// space and four marks, three for any other.
pub proof fn law_length_in_a_query(first: Seq<u8>, second: Seq<u8>, byte: u8)
    ensures
        form_length(Seq::empty()) == 0,
        form_length(first + second) == form_length(first) + form_length(second),
        'a' as int <= byte <= 'z' as int || 'A' as int <= byte <= 'Z' as int || '0' as int <= byte
            <= '9' as int || byte == ' ' as int || byte == '*' as int || byte == '-' as int || byte
            == '.' as int || byte == '_' as int <==> form_length(seq![byte]) == 1,
        form_length(seq![byte]) == 1 || form_length(seq![byte]) == 3,
    decreases second.len(),
{
    assert(seq![byte].drop_last() =~= Seq::<u8>::empty());
    assert(form_length(seq![byte].drop_last()) == 0);
    if second.len() == 0 {
        assert(first + second =~= first);
    } else {
        assert((first + second).drop_last() =~= first + second.drop_last());
        law_length_in_a_query(first, second.drop_last(), byte);
    }
}

/// A pair finds room in a URL without a fragment wherever there is a query, or else where 32 bits can
/// count the URL. In a URL with a fragment it does where 32 bits can count what stands before the
/// fragment, the pair and the marks that come with it.
pub proof fn law_room_for_a_pair(url: Seq<char>, name: Seq<char>, value: Seq<char>)
    ensures
        !url.contains('#') && url.contains('?') ==> has_room_for_pair(url, name, value),
        !url.contains('#') && !url.contains('?') ==> (has_room_for_pair(url, name, value)
            <==> vstd::utf8::encode_utf8(url).len() <= 0xFFFF_FFFF),
        url.contains('#') ==> (has_room_for_pair(url, name, value) <==> vstd::utf8::encode_utf8(
            before_fragment(url),
        ).len() + form_length(vstd::utf8::encode_utf8(name)) + form_length(
            vstd::utf8::encode_utf8(value),
        ) + if before_query(url).len() + 1 == before_fragment(url).len() {
            1int
        } else {
            2int
        } <= 0xFFFF_FFFF),
        has_access_token(url_pairs(url)) ==> has_room_for_token(url, value),
        !has_access_token(url_pairs(url)) ==> (has_room_for_token(url, value) <==> has_room_for_pair(
            url,
            "access_token"@,
            value,
        )),
{
    law_parts_of_a_url(url);
    if !url.contains('#') {
        assert(before_fragment(url) =~= url);
    }
}

/// Asking for the token in the query succeeds exactly for URLs, and then the query names a token: the
/// one that it had, or else the one given, and it is the only pair that was added.
pub proof fn law_url_comes_back_with_a_token(
    service_url: &str,
    token: &str,
    result: Result<String, url::ParseError>,
)
    requires
        call_ensures(ensure_access_token_query, (service_url, token), result),
    ensures
        result is Ok <==> url_parsed(service_url@) is Some,
        result matches Ok(text) ==> {
            let parsed = url_parsed(service_url@)->0;
            let pairs = url_pairs(parsed);
            &&& (exists|i: int| 0 <= i < pairs.len() && (#[trigger] pairs[i]).0 == "access_token"@)
                ==> text@ == parsed
            &&& (forall|i: int|
                0 <= i < pairs.len() ==> (#[trigger] pairs[i]).0 != "access_token"@) ==> url_pairs(
                text@,
            ) == pairs.push(("access_token"@, token@))
            &&& before_query(text@) == before_query(parsed)
            &&& fragment_part(text@) == fragment_part(parsed)
        },
{
    if let Ok(text) = result {
        law_token_goes_into_the_query(url_parsed(service_url@)->0, token@, text@);
    }
}

/// A token is looked for among the names, each compared whole.
pub proof fn law_token_is_looked_for(pairs: &Vec<(String, String)>, found: bool)
    requires
        call_ensures(names_access_token, (pairs,), found),
    ensures
        found <==> exists|i: int|
            0 <= i < pairs@.len() && (#[trigger] pairs@[i]).0@ == "access_token"@,
{
    if found {
        let texts = pair_texts(pairs@);
        let at = choose|i: int| 0 <= i < texts.len() && (#[trigger] texts[i]).0 == "access_token"@;
        assert(pairs@[at].0@ == "access_token"@);
    }
    if exists|i: int| 0 <= i < pairs@.len() && (#[trigger] pairs@[i]).0@ == "access_token"@ {
        let at = choose|i: int|
            0 <= i < pairs@.len() && (#[trigger] pairs@[i]).0@ == "access_token"@;
        assert(pair_texts(pairs@)[at].0 == "access_token"@);
    }
}

} // verus!
