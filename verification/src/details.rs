//! Where a LiveKit call is joined and with which token: from static values, or from the service
//! that hands out both.

use crate::json;
use crate::json::Json;
use crate::service_url;
use crate::text;
use vstd::prelude::*;

verus! {

/// Connection details used by the LiveKit SDK connector.
#[derive(Debug, Clone)]
pub struct LiveKitConnectionDetails {
    /// LiveKit service URL.
    pub service_url: String,
    /// LiveKit JWT access token.
    pub token: String,
}

/// Why connection details could not be had.
#[derive(Debug)]
pub enum LiveKitDetailsError {
    /// There is no LiveKit token.
    MissingToken,
    /// There is no user id to request an OpenID token for.
    MissingUserId,
    /// There is no device id to send in the `/sfu/get` request.
    MissingDeviceId,
    /// There is no LiveKit service URL in the `/sfu/get` response.
    MissingSfuServiceUrl,
    /// There is no LiveKit token in the `/sfu/get` response.
    MissingSfuToken,
    /// The `/sfu/get` response is no JSON.
    InvalidSfuResponse(serde_json::Error),
    /// The service URL is no URL.
    UrlParse(url::ParseError),
}

impl LiveKitConnectionDetails {
    /// Return the service URL with `access_token` appended if missing.
    ///
    /// 32 bits must be able to count where the parts of the URL begin once the token is in its query.
    pub fn authenticated_service_url(&self) -> (result: Result<String, LiveKitDetailsError>)
        requires
            service_url::url_parsed(self.service_url@) matches Some(url)
                ==> service_url::has_room_for_token(url, self.token@),
        ensures
            match result {
                Ok(url) => {
                    &&& service_url::url_parsed(self.service_url@) is Some
                    &&& service_url::is_authenticated(
                        service_url::url_parsed(self.service_url@)->0,
                        self.token@,
                        url@,
                    )
                    &&& service_url::keeps_pairs_when_read(url@)
                },
                Err(error) => {
                    &&& service_url::url_parsed(self.service_url@) is None
                    &&& error is UrlParse
                },
            },
    {
        match service_url::ensure_access_token_query(
            self.service_url.as_str(),
            self.token.as_str(),
        ) {
            Ok(url) => Ok(url),
            Err(error) => Err(LiveKitDetailsError::UrlParse(error)),
        }
    }

    /// Like [`LiveKitConnectionDetails::authenticated_service_url`], for any URL and token: `None`
    /// where 32 bits cannot count where the parts of the URL begin once the token is in its query.
    pub fn try_authenticated_service_url(&self) -> (result: Option<
        Result<String, LiveKitDetailsError>,
    >)
        ensures
            match result {
                None => {
                    &&& service_url::url_parsed(self.service_url@) is Some
                    &&& !service_url::has_room_for_token(
                        service_url::url_parsed(self.service_url@)->0,
                        self.token@,
                    )
                },
                Some(Ok(url)) => {
                    &&& service_url::url_parsed(self.service_url@) is Some
                    &&& service_url::has_room_for_token(
                        service_url::url_parsed(self.service_url@)->0,
                        self.token@,
                    )
                    &&& service_url::is_authenticated(
                        service_url::url_parsed(self.service_url@)->0,
                        self.token@,
                        url@,
                    )
                    &&& service_url::keeps_pairs_when_read(url@)
                },
                Some(Err(error)) => {
                    &&& service_url::url_parsed(self.service_url@) is None
                    &&& error is UrlParse
                },
            },
    {
        if service_url::has_room(self.service_url.as_str(), self.token.as_str()) {
            Some(self.authenticated_service_url())
        } else {
            None
        }
    }
}

/// What is left to do until the connection details are known.
pub enum ResolveStep {
    /// Request an OpenID token for the user, then ask the service at the URL.
    RequestOpenIdToken(SfuLookup),
    /// Find out the LiveKit service URL of the homeserver.
    DiscoverServiceUrl(ServiceDiscovery),
    /// Nothing is left to do.
    Resolved(LiveKitConnectionDetails),
}

/// A lookup at the `/sfu/get` service that waits for an OpenID token.
pub struct SfuLookup {
    pub user_id: String,
    pub sfu_get_url: String,
}

/// Details that lack the service URL only.
pub struct ServiceDiscovery {
    pub token: String,
}

/// Resolve LiveKit connection details either from `/sfu/get` or static values: this decides the
/// first step. A URL of the `/sfu/get` service comes before all static values.
pub fn resolve_connection_details(
    user_id: Option<&str>,
    sfu_get_url: Option<&str>,
    service_url_override: Option<&str>,
    static_token: Option<&str>,
) -> (result: Result<ResolveStep, LiveKitDetailsError>)
    ensures
        match (sfu_get_url, user_id) {
            (Some(sfu_get_url), Some(user_id)) => {
                result matches Ok(ResolveStep::RequestOpenIdToken(lookup)) && lookup.user_id@
                    == user_id@ && lookup.sfu_get_url@ == sfu_get_url@
            },
            (Some(_), None) => result matches Err(LiveKitDetailsError::MissingUserId),
            (None, _) => match (static_token, service_url_override) {
                (Some(token), Some(service_url)) => {
                    result matches Ok(ResolveStep::Resolved(details)) && details.token@ == token@
                        && details.service_url@ == service_url@
                },
                (Some(token), None) => {
                    result matches Ok(ResolveStep::DiscoverServiceUrl(discovery))
                        && discovery.token@ == token@
                },
                (None, _) => result matches Err(LiveKitDetailsError::MissingToken),
            },
        },
{
    if let Some(sfu_get_url) = sfu_get_url {
        return match user_id {
            Some(user_id) => Ok(
                ResolveStep::RequestOpenIdToken(
                    SfuLookup {
                        user_id: user_id.to_owned(),
                        sfu_get_url: sfu_get_url.to_owned(),
                    },
                ),
            ),
            None => Err(LiveKitDetailsError::MissingUserId),
        };
    }
    let token = match static_token {
        Some(token) => token.to_owned(),
        None => return Err(LiveKitDetailsError::MissingToken),
    };
    match service_url_override {
        Some(service_url) => Ok(
            ResolveStep::Resolved(
                LiveKitConnectionDetails { service_url: service_url.to_owned(), token },
            ),
        ),
        None => Ok(ResolveStep::DiscoverServiceUrl(ServiceDiscovery { token })),
    }
}

impl ServiceDiscovery {
    /// The details, once the service URL is known.
    pub fn resolve(self, service_url: String) -> (details: LiveKitConnectionDetails)
        ensures
            details.service_url@ == service_url@,
            details.token@ == self.token@,
    {
        LiveKitConnectionDetails { service_url, token: self.token }
    }
}

/// A token by which a homeserver vouches for a user.
pub struct OpenIdToken {
    pub access_token: String,
    pub expires_in: u64,
    pub matrix_server_name: String,
    pub token_type: String,
}

/// A request to the `/sfu/get` service.
pub struct SfuGetRequest {
    pub url: String,
    pub room: String,
    pub openid_token: OpenIdToken,
    pub device_id: String,
}

impl SfuLookup {
    /// The request to make, once the OpenID token is there.
    pub fn request(self, room_id: &str, device_id: Option<&str>, openid_token: OpenIdToken) -> (result:
        Result<SfuGetRequest, LiveKitDetailsError>)
        ensures
            match (device_id, result) {
                (Some(device_id), Ok(request)) => {
                    &&& request.url@ == self.sfu_get_url@
                    &&& request.room@ == room_id@
                    &&& request.openid_token == openid_token
                    &&& request.device_id@ == device_id@
                },
                (None, Err(error)) => error is MissingDeviceId,
                _ => false,
            },
    {
        match device_id {
            Some(device_id) => Ok(
                SfuGetRequest {
                    url: self.sfu_get_url,
                    room: room_id.to_owned(),
                    openid_token,
                    device_id: device_id.to_owned(),
                },
            ),
            None => Err(LiveKitDetailsError::MissingDeviceId),
        }
    }
}

impl SfuGetRequest {
    /// What the body of the request holds.
    pub open spec fn json(self) -> Json {
        Json::Object(
            map![
                "room"@ => Json::Text(self.room@),
                "openid_token"@ => Json::Object(map![
                    "access_token"@ => Json::Text(self.openid_token.access_token@),
                    "expires_in"@ => Json::Whole(self.openid_token.expires_in as int),
                    "matrix_server_name"@ => Json::Text(self.openid_token.matrix_server_name@),
                    "token_type"@ => Json::Text(self.openid_token.token_type@),
                ]),
                "device_id"@ => Json::Text(self.device_id@),
            ],
        )
    }

    /// The body of the request.
    pub fn body(&self) -> (body: serde_json::Value)
        ensures
            json::json_of(body) == self.json(),
    {
        let token = &self.openid_token;
        let mut openid_token = json::json_object();
        json::json_set(
            &mut openid_token,
            "access_token",
            json::json_text(token.access_token.as_str()),
        );
        json::json_set(&mut openid_token, "expires_in", json::json_u64(token.expires_in));
        json::json_set(
            &mut openid_token,
            "matrix_server_name",
            json::json_text(token.matrix_server_name.as_str()),
        );
        json::json_set(
            &mut openid_token,
            "token_type",
            json::json_text(token.token_type.as_str()),
        );
        let mut body = json::json_object();
        json::json_set(&mut body, "room", json::json_text(self.room.as_str()));
        json::json_set(&mut body, "openid_token", openid_token);
        json::json_set(&mut body, "device_id", json::json_text(self.device_id.as_str()));
        body
    }
}

/// The text of the first of `keys` under which `payload` has a string.
pub open spec fn first_text(payload: Json, keys: Seq<Seq<char>>) -> Option<Seq<char>>
    decreases keys.len(),
{
    if keys.len() == 0 {
        None
    } else if payload.text_member(keys.first()) is Some {
        payload.text_member(keys.first())
    } else {
        first_text(payload, keys.drop_first())
    }
}

/// The texts of `keys`.
pub open spec fn key_texts(keys: Seq<&str>) -> Seq<Seq<char>> {
    keys.map_values(|key: &str| key@)
}

/// The text of the first of `keys` under which `payload` has a string.
pub fn extract_string(payload: &serde_json::Value, keys: &[&str]) -> (found: Option<String>)
    ensures
        text::owned_text_of(found) == first_text(json::json_of(*payload), key_texts(keys@)),
{
    let ghost all = key_texts(keys@);
    let mut at: usize = 0;
    proof {
        assert(all.skip(0) =~= all);
    }
    while at < keys.len()
        invariant
            at <= keys@.len(),
            all == key_texts(keys@),
            first_text(json::json_of(*payload), all) == first_text(
                json::json_of(*payload),
                all.skip(at as int),
            ),
        decreases keys@.len() - at,
    {
        proof {
            assert(all.skip(at as int).first() == keys@[at as int]@);
            assert(all.skip(at as int).drop_first() =~= all.skip(at + 1));
        }
        if let Some(member) = json::json_member(payload, keys[at]) {
            if let Some(found) = json::json_as_text(member) {
                return Some(found.to_owned());
            }
        }
        at = at + 1;
    }
    None
}

/// The first name wins: what is found stands under some of the names, and nothing that could have
/// been found stands under a name before it. Nothing is found only where no name has a string.
pub proof fn law_first_name_wins(payload: Json, keys: Seq<Seq<char>>)
    ensures
        match first_text(payload, keys) {
            Some(found) => exists|i: int|
                0 <= i < keys.len() && #[trigger] payload.text_member(keys[i]) == Some(found)
                    && forall|j: int|
                    0 <= j < i ==> (#[trigger] payload.text_member(keys[j])) is None,
            None => forall|i: int|
                0 <= i < keys.len() ==> (#[trigger] payload.text_member(keys[i])) is None,
        },
    decreases keys.len(),
{
    if keys.len() > 0 {
        let rest = keys.drop_first();
        law_first_name_wins(payload, rest);
        if payload.text_member(keys.first()) is Some {
            assert(payload.text_member(keys[0]) == first_text(payload, keys));
        } else {
            assert forall|i: int| 0 < i < keys.len() implies payload.text_member(
                #[trigger] keys[i],
            ) == payload.text_member(rest[i - 1]) by {}
            if let Some(found) = first_text(payload, keys) {
                let at = choose|i: int|
                    0 <= i < rest.len() && #[trigger] payload.text_member(rest[i]) == Some(found)
                        && forall|j: int|
                        0 <= j < i ==> (#[trigger] payload.text_member(rest[j])) is None;
                assert(payload.text_member(keys[at + 1]) == Some(found));
                assert forall|j: int| 0 <= j < at + 1 implies (#[trigger] payload.text_member(
                    keys[j],
                )) is None by {
                    if j > 0 {
                        assert(payload.text_member(rest[j - 1]) is None);
                    }
                }
            } else {
                assert forall|i: int| 0 <= i < keys.len() implies (#[trigger] payload.text_member(
                    keys[i],
                )) is None by {
                    if i > 0 {
                        assert(payload.text_member(rest[i - 1]) is None);
                    }
                }
            }
        }
    }
}

/// The members that may hold the service URL in a `/sfu/get` response, the most telling first.
pub open spec fn service_url_keys() -> Seq<Seq<char>> {
    seq![
        "service_url"@,
        "livekit_service_url"@,
        "livekit_url"@,
        "sfu_base_url"@,
        "sfu_url"@,
        "url"@,
    ]
}

/// The members that may hold the token in a `/sfu/get` response, the most telling first.
pub open spec fn token_keys() -> Seq<Seq<char>> {
    seq!["token"@, "jwt"@, "access_token"@]
}

/// `result` is what the payload of a `/sfu/get` response comes to: the first string under a member
/// for the service URL and under one for the token, or what is missing, the URL before the token.
pub open spec fn answers(
    payload: Json,
    result: Result<LiveKitConnectionDetails, LiveKitDetailsError>,
) -> bool {
    match (first_text(payload, service_url_keys()), first_text(payload, token_keys())) {
        (None, _) => result matches Err(LiveKitDetailsError::MissingSfuServiceUrl),
        (Some(_), None) => result matches Err(LiveKitDetailsError::MissingSfuToken),
        (Some(service_url), Some(token)) => result matches Ok(details) && details.service_url@
            == service_url && details.token@ == token,
    }
}

/// The details that a `/sfu/get` response holds.
pub fn details_of_payload(payload: &serde_json::Value) -> (result: Result<
    LiveKitConnectionDetails,
    LiveKitDetailsError,
>)
    ensures
        answers(json::json_of(*payload), result),
{
    let url_keys: [&str; 6] = [
        "service_url",
        "livekit_service_url",
        "livekit_url",
        "sfu_base_url",
        "sfu_url",
        "url",
    ];
    proof {
        assert(key_texts(url_keys@) =~= service_url_keys());
    }
    let service_url = match extract_string(payload, url_keys.as_slice()) {
        Some(service_url) => service_url,
        None => return Err(LiveKitDetailsError::MissingSfuServiceUrl),
    };
    let token_names: [&str; 3] = ["token", "jwt", "access_token"];
    proof {
        assert(key_texts(token_names@) =~= token_keys());
    }
    let token = match extract_string(payload, token_names.as_slice()) {
        Some(token) => token,
        None => return Err(LiveKitDetailsError::MissingSfuToken),
    };
    Ok(LiveKitConnectionDetails { service_url, token })
}

/// Reads the body of a `/sfu/get` response.
pub fn fetch_sfu_token(body: &[u8]) -> (result: Result<
    LiveKitConnectionDetails,
    LiveKitDetailsError,
>)
    ensures
        match json::json_read(body@) {
            Some(payload) => answers(payload, result),
            None => result matches Err(LiveKitDetailsError::InvalidSfuResponse(_)),
        },
{
    match json::read_json(body) {
        Ok(payload) => details_of_payload(&payload),
        Err(error) => Err(LiveKitDetailsError::InvalidSfuResponse(error)),
    }
}

/// A response is answered with the URL and the token that it holds, each from its own names: the URL
/// is the string under the first of six names that has one, the token that under the first of three.
/// Without a URL the URL is missing, and with a URL but no token the token.
pub proof fn law_url_and_token_come_from_their_names(
    payload: Json,
    result: Result<LiveKitConnectionDetails, LiveKitDetailsError>,
)
    requires
        answers(payload, result),
    ensures
        ({
            let urls = seq![
                "service_url"@,
                "livekit_service_url"@,
                "livekit_url"@,
                "sfu_base_url"@,
                "sfu_url"@,
                "url"@,
            ];
            let tokens = seq!["token"@, "jwt"@, "access_token"@];
            let has_url = exists|i: int|
                0 <= i < urls.len() && (#[trigger] payload.text_member(urls[i])) is Some;
            let has_token = exists|i: int|
                0 <= i < tokens.len() && (#[trigger] payload.text_member(tokens[i])) is Some;
            &&& result is Ok <==> has_url && has_token
            &&& (result is Err && result->Err_0 is MissingSfuServiceUrl) <==> !has_url
            &&& (result is Err && result->Err_0 is MissingSfuToken) <==> has_url && !has_token
            &&& result matches Ok(details) ==> {
                &&& exists|i: int|
                    0 <= i < urls.len() && #[trigger] payload.text_member(urls[i]) == Some(
                        details.service_url@,
                    ) && forall|j: int|
                        0 <= j < i ==> (#[trigger] payload.text_member(urls[j])) is None
                &&& exists|i: int|
                    0 <= i < tokens.len() && #[trigger] payload.text_member(tokens[i]) == Some(
                        details.token@,
                    ) && forall|j: int|
                        0 <= j < i ==> (#[trigger] payload.text_member(tokens[j])) is None
            }
        }),
{
    let urls = seq![
        "service_url"@,
        "livekit_service_url"@,
        "livekit_url"@,
        "sfu_base_url"@,
        "sfu_url"@,
        "url"@,
    ];
    let tokens = seq!["token"@, "jwt"@, "access_token"@];
    assert(urls =~= service_url_keys());
    assert(tokens =~= token_keys());
    law_first_name_wins(payload, urls);
    law_first_name_wins(payload, tokens);
}

/// Names are looked up as they are given, in their order.
pub proof fn law_names_are_taken_as_given(keys: Seq<&str>, i: int)
    requires
        0 <= i < keys.len(),
    ensures
        key_texts(keys).len() == keys.len(),
        key_texts(keys)[i] == keys[i]@,
{
}

/// A request holds the room, the device and the OpenID token with its four parts, each under its own
/// name, and no other members.
pub proof fn law_request_members(request: SfuGetRequest)
    ensures
        request.json().text_member("room"@) == Some(request.room@),
        request.json().text_member("device_id"@) == Some(request.device_id@),
        request.json().member("openid_token"@) matches Some(token) && token.text_member(
            "access_token"@,
        ) == Some(request.openid_token.access_token@) && token.member("expires_in"@) == Some(
            Json::Whole(request.openid_token.expires_in as int),
        ) && token.text_member("matrix_server_name"@) == Some(
            request.openid_token.matrix_server_name@,
        ) && token.text_member("token_type"@) == Some(request.openid_token.token_type@),
        forall|name: Seq<char>| (#[trigger] request.json().member(name)) is Some ==> name
            == "room"@ || name == "device_id"@ || name == "openid_token"@,
{
    reveal_strlit("room");
    reveal_strlit("device_id");
    reveal_strlit("openid_token");
    reveal_strlit("access_token");
    reveal_strlit("expires_in");
    reveal_strlit("matrix_server_name");
    reveal_strlit("token_type");
    assert("room"@.len() == 4);
    assert("device_id"@.len() == 9);
    assert("openid_token"@.len() == 12);
    assert("access_token"@.len() == 12);
    assert("expires_in"@.len() == 10 && "expires_in"@[0] == 'e');
    assert("matrix_server_name"@.len() == 18);
    assert("token_type"@.len() == 10 && "token_type"@[0] == 't');
}

/// A response is answered by what it holds, and by an error of its own where it is no JSON.
pub proof fn law_response_is_read(
    body: &[u8],
    payload: &serde_json::Value,
    read: Result<LiveKitConnectionDetails, LiveKitDetailsError>,
    found: Result<LiveKitConnectionDetails, LiveKitDetailsError>,
)
    requires
        call_ensures(fetch_sfu_token, (body,), read),
        call_ensures(details_of_payload, (payload,), found),
    ensures
        json::json_read(body@) is None <==> read is Err && read->Err_0 is InvalidSfuResponse,
        json::json_read(body@) matches Some(held) ==> answers(held, read),
        answers(json::json_of(*payload), found),
        json::json_read(body@) == Some(json::json_of(*payload)) ==> {
            &&& read is Ok <==> found is Ok
            &&& read is Ok ==> read->Ok_0.service_url@ == found->Ok_0.service_url@
                && read->Ok_0.token@ == found->Ok_0.token@
        },
{
}

/// The string that is looked up stands under some of the names, and none stands under a name before
/// it.
pub proof fn law_first_string_is_extracted(
    payload: &serde_json::Value,
    keys: &[&str],
    found: Option<String>,
)
    requires
        call_ensures(extract_string, (payload, keys), found),
    ensures
        match found {
            Some(found) => exists|i: int|
                0 <= i < keys@.len() && #[trigger] json::json_of(*payload).text_member(keys@[i]@)
                    == Some(found@) && forall|j: int|
                    0 <= j < i ==> (#[trigger] json::json_of(*payload).text_member(
                        keys@[j]@,
                    )) is None,
            None => forall|i: int|
                0 <= i < keys@.len() ==> (#[trigger] json::json_of(*payload).text_member(
                    keys@[i]@,
                )) is None,
        },
{
    let held = json::json_of(*payload);
    let texts = key_texts(keys@);
    law_first_name_wins(held, texts);
    assert forall|i: int| 0 <= i < keys@.len() implies texts[i] == (#[trigger] keys@[i])@ by {}
    match found {
        Some(found) => {
            let at = choose|i: int|
                0 <= i < texts.len() && #[trigger] held.text_member(texts[i]) == Some(found@)
                    && forall|j: int|
                    0 <= j < i ==> (#[trigger] held.text_member(texts[j])) is None;
            assert(held.text_member(keys@[at]@) == Some(found@));
            assert forall|j: int| 0 <= j < at implies (#[trigger] held.text_member(
                keys@[j]@,
            )) is None by {
                assert(held.text_member(texts[j]) is None);
            }
        },
        None => {
            assert forall|i: int| 0 <= i < keys@.len() implies (#[trigger] held.text_member(
                keys@[i]@,
            )) is None by {
                assert(held.text_member(texts[i]) is None);
            }
        },
    }
}

/// The URL of the `/sfu/get` service decides: with it the static values do not matter, and without it
/// the user does not. A token that is given is the one that is used, and so is a service URL.
pub proof fn law_first_step_of_resolving(
    user_id: Option<&str>,
    sfu_get_url: Option<&str>,
    service_url_override: Option<&str>,
    static_token: Option<&str>,
    result: Result<ResolveStep, LiveKitDetailsError>,
)
    requires
        call_ensures(
            resolve_connection_details,
            (user_id, sfu_get_url, service_url_override, static_token),
            result,
        ),
    ensures
        sfu_get_url is Some && user_id is Some ==> result is Ok && result->Ok_0 is RequestOpenIdToken
            && result->Ok_0->RequestOpenIdToken_0.user_id@ == user_id->0@
            && result->Ok_0->RequestOpenIdToken_0.sfu_get_url@ == sfu_get_url->0@,
        sfu_get_url is Some && user_id is None <==> result is Err
            && result->Err_0 is MissingUserId,
        sfu_get_url is None && static_token is None <==> result is Err
            && result->Err_0 is MissingToken,
        sfu_get_url is None && static_token is Some && service_url_override is Some ==> result is Ok
            && result->Ok_0 is Resolved && result->Ok_0->Resolved_0.token@ == static_token->0@
            && result->Ok_0->Resolved_0.service_url@ == service_url_override->0@,
        sfu_get_url is None && static_token is Some && service_url_override is None ==> result is Ok
            && result->Ok_0 is DiscoverServiceUrl && result->Ok_0->DiscoverServiceUrl_0.token@
            == static_token->0@,
{
}

/// A lookup asks the service that it was made for, for the given room and device and with the given
/// token, and fails only for want of a device.
pub proof fn law_lookup_asks_for_what_it_is_given(
    lookup: SfuLookup,
    room_id: &str,
    device_id: Option<&str>,
    openid_token: OpenIdToken,
    result: Result<SfuGetRequest, LiveKitDetailsError>,
)
    requires
        call_ensures(SfuLookup::request, (lookup, room_id, device_id, openid_token), result),
    ensures
        result is Ok <==> device_id is Some,
        result matches Ok(request) ==> request.url@ == lookup.sfu_get_url@ && request.room@
            == room_id@ && request.device_id@ == device_id->0@ && request.openid_token
            == openid_token,
        result matches Err(error) ==> error is MissingDeviceId,
{
}

/// A service URL that is found out later is the one that is used, with the token that was there.
pub proof fn law_discovered_url_is_used(
    discovery: ServiceDiscovery,
    service_url: String,
    details: LiveKitConnectionDetails,
)
    requires
        call_ensures(ServiceDiscovery::resolve, (discovery, service_url), details),
    ensures
        details.service_url@ == service_url@,
        details.token@ == discovery.token@,
{
}

/// The body of a request holds the request.
pub proof fn law_body_holds_the_request(request: &SfuGetRequest, body: serde_json::Value)
    requires
        call_ensures(SfuGetRequest::body, (request,), body),
    ensures
        json::json_of(body).text_member("room"@) == Some(request.room@),
        json::json_of(body).text_member("device_id"@) == Some(request.device_id@),
        json::json_of(body).member("openid_token"@) matches Some(token) && token.text_member(
            "access_token"@,
        ) == Some(request.openid_token.access_token@),
{
    law_request_members(*request);
}

} // verus!
