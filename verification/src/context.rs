//! The client context builder: per-impersonation request envelopes with
//! fixed version and locale fields, the operation-specific request
//! bodies built on them, and the profile-matching header set.

use vstd::prelude::*;
use vstd::string::*;
use crate::json::{self, Json};

verus! {

/// The two impersonation profiles.
#[derive(Debug, Clone, Copy, PartialEq, Eq, Structural)]
pub enum ClientType {
    Web,
    Android,
}

pub open spec fn spec_client_name(ct: ClientType) -> Seq<char> {
    if ct == ClientType::Web {
        "WEB"@
    } else {
        "ANDROID"@
    }
}

pub open spec fn spec_client_version(ct: ClientType) -> Seq<char> {
    if ct == ClientType::Web {
        "2.20230301.09.00"@
    } else {
        "19.05.36"@
    }
}

pub open spec fn spec_user_agent(ct: ClientType) -> Seq<char> {
    if ct == ClientType::Web {
        "Mozilla/5.0 (Windows NT 10.0; Win64; x64) AppleWebKit/537.36 (KHTML, like Gecko) Chrome/121.0.0.0 Safari/537.36"@
    } else {
        "com.google.android.youtube/19.05.36 (Linux; U; Android 14; en_US) gzip"@
    }
}

/// The fixed per-profile client object inside a request envelope.
pub open spec fn spec_client_ok(ct: ClientType, client: Json) -> bool {
    &&& client.spec_get_str("clientName"@) == Some(spec_client_name(ct))
    &&& client.spec_get_str("clientVersion"@) == Some(spec_client_version(ct))
    &&& client.spec_get_str("hl"@) == Some("en"@)
    &&& client.spec_get_str("gl"@) == Some("US"@)
    &&& (match client.spec_get("utcOffsetMinutes"@) {
        Some(v) => match v {
            Json::Num(s) => s@ == "0"@,
            _ => false,
        },
        None => false,
    })
    &&& (ct == ClientType::Android ==> (match client.spec_get("androidSdkVersion"@) {
        Some(v) => match v {
            Json::Num(s) => s@ == "34"@,
            _ => false,
        },
        None => false,
    }))
    &&& (ct == ClientType::Web ==> client.spec_get("androidSdkVersion"@) is None)
}

pub open spec fn spec_envelope_client(r: Json) -> Option<Json> {
    json::opt_get(r.spec_get("context"@), "client"@)
}

/// The envelope carries the profile's fixed client context.
pub open spec fn spec_context_ok(ct: ClientType, r: Json) -> bool {
    match spec_envelope_client(r) {
        Some(c) => spec_client_ok(ct, c),
        None => false,
    }
}

fn key(s: &str) -> (r: String)
    ensures
        r@ == s@,
{
    String::from_str(s)
}

fn client_object(ct: ClientType) -> (r: Json)
    ensures
        spec_client_ok(ct, r),
{
    let mut fields: Vec<(String, Json)> = Vec::new();
    let name = match ct {
        ClientType::Web => "WEB",
        ClientType::Android => "ANDROID",
    };
    let version = match ct {
        ClientType::Web => "2.20230301.09.00",
        ClientType::Android => "19.05.36",
    };
    fields.push((key("clientName"), Json::Str(String::from_str(name))));
    fields.push((key("clientVersion"), Json::Str(String::from_str(version))));
    fields.push((key("hl"), Json::Str(String::from_str("en"))));
    fields.push((key("gl"), Json::Str(String::from_str("US"))));
    fields.push((key("utcOffsetMinutes"), Json::Num(String::from_str("0"))));
    let is_android = match ct {
        ClientType::Web => false,
        ClientType::Android => true,
    };
    if is_android {
        fields.push((key("androidSdkVersion"), Json::Num(String::from_str("34"))));
    }
    proof {
        reveal_strlit("clientName");
        reveal_strlit("clientVersion");
        reveal_strlit("hl");
        reveal_strlit("gl");
        reveal_strlit("utcOffsetMinutes");
        reveal_strlit("androidSdkVersion");
        assert("hl"@[0] == 'h');
        assert("gl"@[0] == 'g');
        assert(fields@[0].0@ == "clientName"@);
        assert(fields@[1].0@ == "clientVersion"@);
        assert(fields@[2].0@ == "hl"@);
        assert(fields@[3].0@ == "gl"@);
        assert(fields@[4].0@ == "utcOffsetMinutes"@);
        if is_android {
            assert(fields@.len() == 6);
            assert(fields@[5].0@ == "androidSdkVersion"@);
        } else {
            assert(fields@.len() == 5);
        }
        json::lemma_fields_get_at(fields@, "clientName"@, 0);
        json::lemma_fields_get_at(fields@, "clientVersion"@, 1);
        json::lemma_fields_get_at(fields@, "hl"@, 2);
        json::lemma_fields_get_at(fields@, "gl"@, 3);
        json::lemma_fields_get_at(fields@, "utcOffsetMinutes"@, 4);
        if is_android {
            json::lemma_fields_get_at(fields@, "androidSdkVersion"@, 5);
        } else {
            json::lemma_fields_get_absent(fields@, "androidSdkVersion"@);
        }
    }
    Json::Obj(fields)
}

fn envelope_fields(ct: ClientType) -> (r: Vec<(String, Json)>)
    ensures
        r@.len() == 1,
        r@[0].0@ == "context"@,
        (match r@[0].1.spec_get("client"@) {
            Some(c) => spec_client_ok(ct, c),
            None => false,
        }),
{
    let client = client_object(ct);
    let mut inner: Vec<(String, Json)> = Vec::new();
    inner.push((key("client"), client));
    proof {
        json::lemma_fields_get_at(inner@, "client"@, 0);
    }
    let mut outer: Vec<(String, Json)> = Vec::new();
    outer.push((key("context"), Json::Obj(inner)));
    outer
}

/// The fresh request envelope for a profile, before operation fields.
pub fn request_context(ct: ClientType) -> (r: Json)
    ensures
        spec_context_ok(ct, r),
        r.spec_get("query"@) is None,
        r.spec_get("browseId"@) is None,
        r.spec_get("continuation"@) is None,
        r.spec_get("videoId"@) is None,
{
    let outer = envelope_fields(ct);
    proof {
        reveal_strlit("context");
        reveal_strlit("query");
        reveal_strlit("browseId");
        reveal_strlit("continuation");
        reveal_strlit("videoId");
        assert("context"@[0] == 'c');
        assert("videoId"@[0] == 'v');
        assert("context"@.len() == 7);
        assert("continuation"@.len() == 12);
        lemma_envelope(outer@);
        json::lemma_fields_get_absent(outer@, "query"@);
        json::lemma_fields_get_absent(outer@, "browseId"@);
        json::lemma_fields_get_absent(outer@, "continuation"@);
        json::lemma_fields_get_absent(outer@, "videoId"@);
    }
    Json::Obj(outer)
}

/// The envelope's `context` entry answers for `context` and nothing
/// else among the operation keys.
proof fn lemma_envelope(outer: Seq<(String, Json)>)
    requires
        outer.len() >= 1,
        outer[0].0@ == "context"@,
        forall|j: int| 1 <= j < outer.len() ==> outer[j].0@ != "context"@,
    ensures
        json::spec_fields_get(outer, "context"@) == Some(outer[0].1),
{
    json::lemma_fields_get_at(outer, "context"@, 0);
}

/// The body of a `search` call: the envelope plus the query text.
pub fn search_body(ct: ClientType, query: &str) -> (r: Json)
    ensures
        spec_context_ok(ct, r),
        r.spec_get_str("query"@) == Some(query@),
        r.spec_get("browseId"@) is None,
        r.spec_get("continuation"@) is None,
        r.spec_get("videoId"@) is None,
{
    let mut outer = envelope_fields(ct);
    outer.push((key("query"), Json::Str(query.to_owned())));
    proof {
        reveal_strlit("context");
        reveal_strlit("query");
        reveal_strlit("browseId");
        reveal_strlit("continuation");
        reveal_strlit("videoId");
        assert("context"@[0] == 'c');
        assert("videoId"@[0] == 'v');
        assert(outer@.len() == 2);
        assert(outer@[0].0@ == "context"@);
        assert(outer@[1].0@ == "query"@);
        lemma_envelope(outer@);
        json::lemma_fields_get_at(outer@, "query"@, 1);
        json::lemma_fields_get_absent(outer@, "browseId"@);
        json::lemma_fields_get_absent(outer@, "continuation"@);
        json::lemma_fields_get_absent(outer@, "videoId"@);
    }
    Json::Obj(outer)
}

/// The body of a `browse` call: the envelope plus the entity id and/or
/// the continuation token — a call with neither is a caller contract
/// violation.
pub fn browse_body(ct: ClientType, browse_id: Option<&str>, continuation: Option<&str>) -> (r:
    Json)
    requires
        browse_id is Some || continuation is Some,
    ensures
        spec_context_ok(ct, r),
        (match browse_id {
            Some(b) => r.spec_get_str("browseId"@) == Some(b@),
            None => r.spec_get("browseId"@) is None,
        }),
        (match continuation {
            Some(c) => r.spec_get_str("continuation"@) == Some(c@),
            None => r.spec_get("continuation"@) is None,
        }),
        r.spec_get("query"@) is None,
        r.spec_get("videoId"@) is None,
{
    let mut outer = envelope_fields(ct);
    let has_browse = match browse_id {
        Some(b) => {
            outer.push((key("browseId"), Json::Str(b.to_owned())));
            true
        },
        None => false,
    };
    let ghost cont_at = outer@.len() as int;
    match continuation {
        Some(c) => {
            outer.push((key("continuation"), Json::Str(c.to_owned())));
        },
        None => {},
    }
    proof {
        reveal_strlit("context");
        reveal_strlit("query");
        reveal_strlit("browseId");
        reveal_strlit("continuation");
        reveal_strlit("videoId");
        assert("context"@[0] == 'c');
        assert("videoId"@[0] == 'v');
        assert(outer@[0].0@ == "context"@);
        if has_browse {
            assert(outer@[1].0@ == "browseId"@);
        }
        if continuation is Some {
            assert(outer@[cont_at].0@ == "continuation"@);
        }
        lemma_envelope(outer@);
        if has_browse {
            json::lemma_fields_get_at(outer@, "browseId"@, 1);
        } else {
            json::lemma_fields_get_absent(outer@, "browseId"@);
        }
        if continuation is Some {
            json::lemma_fields_get_at(outer@, "continuation"@, cont_at);
        } else {
            json::lemma_fields_get_absent(outer@, "continuation"@);
        }
        json::lemma_fields_get_absent(outer@, "query"@);
        json::lemma_fields_get_absent(outer@, "videoId"@);
    }
    Json::Obj(outer)
}

/// The body of a `player` call: the envelope plus the video id.
pub fn player_body(ct: ClientType, video_id: &str) -> (r: Json)
    ensures
        spec_context_ok(ct, r),
        r.spec_get_str("videoId"@) == Some(video_id@),
        r.spec_get("query"@) is None,
        r.spec_get("browseId"@) is None,
        r.spec_get("continuation"@) is None,
{
    let mut outer = envelope_fields(ct);
    outer.push((key("videoId"), Json::Str(video_id.to_owned())));
    proof {
        reveal_strlit("context");
        reveal_strlit("query");
        reveal_strlit("browseId");
        reveal_strlit("continuation");
        reveal_strlit("videoId");
        assert("context"@[0] == 'c');
        assert("videoId"@[0] == 'v');
        assert(outer@.len() == 2);
        assert(outer@[0].0@ == "context"@);
        assert(outer@[1].0@ == "videoId"@);
        lemma_envelope(outer@);
        json::lemma_fields_get_at(outer@, "videoId"@, 1);
        json::lemma_fields_get_absent(outer@, "query"@);
        json::lemma_fields_get_absent(outer@, "browseId"@);
        json::lemma_fields_get_absent(outer@, "continuation"@);
    }
    Json::Obj(outer)
}

/// The header pairs every call carries: a JSON content type and the
/// profile-matching user agent.
pub fn request_headers(ct: ClientType) -> (r: Vec<(String, String)>)
    ensures
        r@.len() == 2,
        r@[0].0@ == "content-type"@,
        r@[0].1@ == "application/json"@,
        r@[1].0@ == "user-agent"@,
        r@[1].1@ == spec_user_agent(ct),
{
    let ua = match ct {
        ClientType::Web => "Mozilla/5.0 (Windows NT 10.0; Win64; x64) AppleWebKit/537.36 (KHTML, like Gecko) Chrome/121.0.0.0 Safari/537.36",
        ClientType::Android => "com.google.android.youtube/19.05.36 (Linux; U; Android 14; en_US) gzip",
    };
    let mut r: Vec<(String, String)> = Vec::new();
    r.push((key("content-type"), String::from_str("application/json")));
    r.push((key("user-agent"), String::from_str(ua)));
    r
}

} // verus!
