//! The requests that the automation server on the phone is sent, and what its answers say.
//!
//! Every request is a method, a path and a body that is written here, so that what is sent is
//! known exactly; sending it is left to the program.
use vstd::prelude::*;

use crate::integrations::usb_devices;
use crate::integrations::AdapterError;
use crate::json;
use crate::json::{list1, object1, object2, text_value, Json, JsonValue};
use crate::text;

verus! {

/// How many characters go into one request that types text.
pub const WDA_TEXT_BATCH_CHARS: usize = 128;

/// How fast text is typed, in characters per minute.
pub const WDA_TEXT_FREQUENCY: u32 = 600;

/// A size of a screen.
#[derive(Debug, Clone, Copy, PartialEq, Eq, Structural)]
pub struct ScreenSize {
    pub width: u32,
    pub height: u32,
}

/// The method of a request.
#[derive(Debug, Clone, Copy, PartialEq, Eq, Structural)]
pub enum WdaMethod {
    Get,
    Post,
    Delete,
}

impl WdaMethod {
    pub open spec fn text(self) -> Seq<char> {
        match self {
            WdaMethod::Get => "GET"@,
            WdaMethod::Post => "POST"@,
            WdaMethod::Delete => "DELETE"@,
        }
    }

    /// The name of the method.
    pub fn name(self) -> (r: &'static str)
        ensures
            r@ == self.text(),
    {
        match self {
            WdaMethod::Get => "GET",
            WdaMethod::Post => "POST",
            WdaMethod::Delete => "DELETE",
        }
    }
}

/// A request.
#[derive(Debug)]
pub struct WdaRequest<T = String> {
    pub method: WdaMethod,
    pub path: T,
    pub body: Option<T>,
}

impl View for WdaRequest<String> {
    type V = WdaRequest<Seq<char>>;

    open spec fn view(&self) -> WdaRequest<Seq<char>> {
        WdaRequest { method: self.method, path: self.path@, body: text::opt_text(self.body) }
    }
}

/// The contents of a list of requests.
pub open spec fn requests(v: Seq<WdaRequest>) -> Seq<WdaRequest<Seq<char>>> {
    Seq::new(v.len(), |i: int| v[i]@)
}

/// A request without a body.
pub open spec fn bare(method: WdaMethod, path: Seq<char>) -> WdaRequest<Seq<char>> {
    WdaRequest { method, path, body: None }
}

/// A request that sends a value.
pub open spec fn sending(path: Seq<char>, v: Json) -> WdaRequest<Seq<char>> {
    WdaRequest { method: WdaMethod::Post, path, body: Some(json::text_of_json(v)) }
}

fn bare_request(method: WdaMethod, path: String) -> (r: WdaRequest)
    ensures
        r@ == bare(method, path@),
{
    WdaRequest { method, path, body: None }
}

fn sending_request(path: String, v: &JsonValue) -> (r: WdaRequest)
    requires
        json::writable(v@, json::max_depth()),
    ensures
        r@ == sending(path@, v@),
{
    WdaRequest { method: WdaMethod::Post, path, body: Some(json::write_json(v)) }
}

// ---------------------------------------------------------------------------
// Names in order
// ---------------------------------------------------------------------------

proof fn lemma_names()
    ensures
        json::text_before("actions"@, "id"@),
        json::text_before("id"@, "parameters"@),
        json::text_before("id"@, "type"@),
        json::text_before("parameters"@, "type"@),
        json::text_before("duration"@, "origin"@),
        json::text_before("origin"@, "type"@),
        json::text_before("type"@, "x"@),
        json::text_before("x"@, "y"@),
        json::text_before("button"@, "type"@),
        json::text_before("type"@, "value"@),
        json::text_before("frequency"@, "value"@),
        json::text_before("deltaX"@, "deltaY"@),
        json::text_before("deltaY"@, "duration"@),
{
    reveal_strlit("actions");
    reveal_strlit("id");
    reveal_strlit("parameters");
    reveal_strlit("type");
    reveal_strlit("duration");
    reveal_strlit("origin");
    reveal_strlit("x");
    reveal_strlit("y");
    reveal_strlit("button");
    reveal_strlit("value");
    reveal_strlit("frequency");
    reveal_strlit("deltaX");
    reveal_strlit("deltaY");
    json::lemma_text_before("actions"@, "id"@, 0);
    json::lemma_text_before("id"@, "parameters"@, 0);
    json::lemma_text_before("id"@, "type"@, 0);
    json::lemma_text_before("parameters"@, "type"@, 0);
    json::lemma_text_before("duration"@, "origin"@, 0);
    json::lemma_text_before("origin"@, "type"@, 0);
    json::lemma_text_before("type"@, "x"@, 0);
    json::lemma_text_before("x"@, "y"@, 0);
    json::lemma_text_before("button"@, "type"@, 0);
    json::lemma_text_before("type"@, "value"@, 0);
    json::lemma_text_before("frequency"@, "value"@, 0);
    json::lemma_text_before("deltaX"@, "deltaY"@, 5);
    json::lemma_text_before("deltaY"@, "duration"@, 1);
}

proof fn lemma_capability_names()
    ensures
        json::text_before("appium:automationName"@, "appium:newCommandTimeout"@),
        json::text_before("appium:newCommandTimeout"@, "appium:noReset"@),
        json::text_before("appium:noReset"@, "appium:udid"@),
        json::text_before("appium:noReset"@, "platformName"@),
        json::text_before("appium:udid"@, "platformName"@),
        json::text_before("capabilities"@, "desiredCapabilities"@),
{
    reveal_strlit("appium:automationName");
    reveal_strlit("appium:newCommandTimeout");
    reveal_strlit("appium:noReset");
    reveal_strlit("appium:udid");
    reveal_strlit("platformName");
    reveal_strlit("capabilities");
    reveal_strlit("desiredCapabilities");
    json::lemma_text_before("appium:automationName"@, "appium:newCommandTimeout"@, 7);
    json::lemma_text_before("appium:newCommandTimeout"@, "appium:noReset"@, 8);
    json::lemma_text_before("appium:noReset"@, "appium:udid"@, 7);
    json::lemma_text_before("appium:noReset"@, "platformName"@, 0);
    json::lemma_text_before("appium:udid"@, "platformName"@, 0);
    json::lemma_text_before("capabilities"@, "desiredCapabilities"@, 0);
}

// ---------------------------------------------------------------------------
// Status and session
// ---------------------------------------------------------------------------

/// Asks whether the server is there.
pub fn status_request() -> (r: WdaRequest)
    ensures
        r@ == bare(WdaMethod::Get, "/status"@),
{
    bare_request(WdaMethod::Get, text::own("/status"))
}

/// Whether an answer to a status request is one.
pub open spec fn is_status(v: Json) -> bool {
    v.get("value"@) is Some || v.get("status"@) is Some
}

/// Judges the answer to a status request.
pub fn judge_status(v: &JsonValue) -> (r: Result<(), AdapterError>)
    ensures
        match r {
            Ok(_) => is_status(v@),
            Err(e) => !is_status(v@) && e@ == AdapterError::IosUsbUnavailable(
                "WDA 返回缺少 status/value 字段"@,
            ),
        },
{
    if v.get("value").is_some() || v.get("status").is_some() {
        Ok(())
    } else {
        Err(AdapterError::IosUsbUnavailable(text::own("WDA 返回缺少 status/value 字段")))
    }
}

/// The capabilities that a session asks for.
pub open spec fn wanted_capabilities(udid: Option<Seq<char>>) -> Json {
    let head = seq![
        ("appium:automationName"@, Json::Text("XCUITest"@)),
        ("appium:newCommandTimeout"@, Json::Integer(3600)),
        ("appium:noReset"@, Json::Bool(true)),
    ];
    let tail = seq![("platformName"@, Json::Text("iOS"@))];
    match udid {
        Some(u) => Json::Object(head + seq![("appium:udid"@, Json::Text(u))] + tail),
        None => Json::Object(head + tail),
    }
}

/// The body of a request for a session.
pub open spec fn session_body(udid: Option<Seq<char>>) -> Json {
    Json::Object(
        seq![
            ("capabilities"@, Json::Object(seq![("alwaysMatch"@, wanted_capabilities(udid))])),
            (
                "desiredCapabilities"@,
                Json::Object(seq![("platformName"@, Json::Text("iOS"@))]),
            ),
        ],
    )
}

/// Builds the body of a request for a session.
pub fn session_payload(udid: &Option<String>) -> (r: JsonValue)
    ensures
        r@ == session_body(text::opt_text(*udid)),
        json::writable(r@, json::max_depth()),
{
    let mut o: Vec<(String, JsonValue)> = Vec::new();
    json::push_member(&mut o, "appium:automationName", text_value("XCUITest"));
    json::push_member(&mut o, "appium:newCommandTimeout", JsonValue::Integer(3600));
    json::push_member(&mut o, "appium:noReset", JsonValue::Bool(true));
    match udid {
        Some(u) => {
            json::push_member(&mut o, "appium:udid", text_value(u.as_str()));
        },
        None => {},
    }
    json::push_member(&mut o, "platformName", text_value("iOS"));
    let ghost inner = json::members(o@);
    let wanted = json::object_value(o);
    proof {
        lemma_capability_names();
        assert(wanted@ == wanted_capabilities(text::opt_text(*udid))) by {
            match wanted_capabilities(text::opt_text(*udid)) {
                Json::Object(s) => {
                    assert(s =~= inner);
                },
                _ => {},
            }
        }
        json::lemma_object_writable(inner, 1);
        json::lemma_object_writable(seq![("alwaysMatch"@, wanted@)], 2);
        json::lemma_object_writable(seq![("platformName"@, Json::Text("iOS"@))], 1);
    }
    let r = object2(
        "capabilities",
        object1("alwaysMatch", wanted),
        "desiredCapabilities",
        object1("platformName", text_value("iOS")),
    );
    proof {
        let whole = session_body(text::opt_text(*udid));
        json::lemma_writable_deeper(
            Json::Object(seq![("platformName"@, Json::Text("iOS"@))]),
            2,
            3,
        );
        json::lemma_object_writable(whole->Object_0, 3);
        json::lemma_writable_deeper(whole, 4, json::max_depth());
    }
    r
}

/// Asks for a session; `udid` names the phone.
pub fn session_request(udid: &Option<String>) -> (r: WdaRequest)
    ensures
        r@ == sending("/session"@, session_body(text::opt_text(*udid))),
{
    let body = session_payload(udid);
    sending_request(text::own("/session"), &body)
}

/// The value inside an answer, or the answer itself where it has none.
pub open spec fn inner_value(v: Json) -> Json {
    match v.get("value"@) {
        Some(x) => x,
        None => v,
    }
}

fn inner<'a>(v: &'a JsonValue) -> (r: &'a JsonValue)
    ensures
        r@ == inner_value(v@),
{
    match v.get("value") {
        Some(x) => x,
        None => v,
    }
}

/// The name of the session in an answer.
pub open spec fn session_name(v: Json) -> Seq<char> {
    match inner_value(v).get("sessionId"@) {
        Some(Json::Text(s)) => s,
        _ => json::text_or(v.get("sessionId"@), Seq::empty()),
    }
}

/// Whether every character of a name may stand in a path.
pub open spec fn is_safe(name: Seq<char>) -> bool {
    forall|i: int| 0 <= i < name.len() ==> usb_devices::id_char(#[trigger] name[i])
}

/// Whether a name is not empty and every character of it may stand in a path.
pub fn safe_session_name(name: &str) -> (r: bool)
    ensures
        r == (name@.len() > 0 && is_safe(name@)),
{
    let v = text::chars_of(name);
    v.len() > 0 && usb_devices::all_id_chars(&v)
}

/// What an answer to a request for a session gives.
pub open spec fn session_given(v: Json) -> Result<Seq<char>, AdapterError<Seq<char>>> {
    let s = session_name(v);
    if s.len() == 0 {
        Err(AdapterError::IosUsbUnavailable("WDA 未返回 sessionId"@))
    } else if !is_safe(s) {
        Err(AdapterError::IosUsbUnavailable("WDA sessionId 含有不安全字符"@))
    } else {
        Ok(s)
    }
}

pub open spec fn text_outcome(r: Result<String, AdapterError>) -> Result<
    Seq<char>,
    AdapterError<Seq<char>>,
> {
    match r {
        Ok(s) => Ok(s@),
        Err(e) => Err(e@),
    }
}

/// Reads the name of the session out of an answer.
pub fn read_session(v: &JsonValue) -> (r: Result<String, AdapterError>)
    ensures
        text_outcome(r) == session_given(v@),
{
    let found = match inner(v).get("sessionId") {
        Some(JsonValue::Text(s)) => text::own(s.as_str()),
        _ => json::text_of_or(v.get("sessionId"), ""),
    };
    proof {
        reveal_strlit("");
        assert(""@ =~= Seq::<char>::empty());
    }
    if found.as_str().is_empty() {
        return Err(AdapterError::IosUsbUnavailable(text::own("WDA 未返回 sessionId")));
    }
    if !safe_session_name(found.as_str()) {
        return Err(
            AdapterError::IosUsbUnavailable(text::own("WDA sessionId 含有不安全字符")),
        );
    }
    Ok(found)
}

/// The path of a request within a session.
pub open spec fn session_place(session: Seq<char>, suffix: Seq<char>) -> Result<
    Seq<char>,
    AdapterError<Seq<char>>,
> {
    if session.len() == 0 {
        Err(AdapterError::IosUsbUnavailable("WDA 会话尚未建立"@))
    } else {
        Ok("/session/"@ + session + suffix)
    }
}

/// The path of a request within a session.
pub fn session_path(session: &str, suffix: &str) -> (r: Result<String, AdapterError>)
    ensures
        text_outcome(r) == session_place(session@, suffix@),
{
    if session.is_empty() {
        Err(AdapterError::IosUsbUnavailable(text::own("WDA 会话尚未建立")))
    } else {
        Ok(text::cat3("/session/", session, suffix))
    }
}

/// The outcome of building a request.
pub open spec fn request_outcome(r: Result<WdaRequest, AdapterError>) -> Result<
    WdaRequest<Seq<char>>,
    AdapterError<Seq<char>>,
> {
    match r {
        Ok(q) => Ok(q@),
        Err(e) => Err(e@),
    }
}

/// A request without a body within a session.
pub open spec fn bare_in(method: WdaMethod, session: Seq<char>, suffix: Seq<char>) -> Result<
    WdaRequest<Seq<char>>,
    AdapterError<Seq<char>>,
> {
    match session_place(session, suffix) {
        Ok(p) => Ok(bare(method, p)),
        Err(e) => Err(e),
    }
}

/// A request that sends a value within a session.
pub open spec fn sending_in(session: Seq<char>, suffix: Seq<char>, v: Json) -> Result<
    WdaRequest<Seq<char>>,
    AdapterError<Seq<char>>,
> {
    match session_place(session, suffix) {
        Ok(p) => Ok(sending(p, v)),
        Err(e) => Err(e),
    }
}

/// Asks for the size of the screen.
pub fn size_request(session: &str) -> (r: Result<WdaRequest, AdapterError>)
    ensures
        request_outcome(r) == bare_in(WdaMethod::Get, session@, "/window/size"@),
{
    match session_path(session, "/window/size") {
        Ok(p) => Ok(bare_request(WdaMethod::Get, p)),
        Err(e) => Err(e),
    }
}

/// Ends the actions that are under way.
pub fn release_request(session: &str) -> (r: Result<WdaRequest, AdapterError>)
    ensures
        request_outcome(r) == bare_in(WdaMethod::Delete, session@, "/actions"@),
{
    match session_path(session, "/actions") {
        Ok(p) => Ok(bare_request(WdaMethod::Delete, p)),
        Err(e) => Err(e),
    }
}

/// Ends a session.
pub fn end_request(session: &str) -> (r: Result<WdaRequest, AdapterError>)
    ensures
        request_outcome(r) == bare_in(WdaMethod::Delete, session@, ""@),
{
    match session_path(session, "") {
        Ok(p) => Ok(bare_request(WdaMethod::Delete, p)),
        Err(e) => Err(e),
    }
}

/// A number that counts pixels.
pub open spec fn pixels(v: Option<Json>) -> Option<u32> {
    match v {
        Some(Json::Integer(n)) => if 0 <= n <= u32::MAX {
            Some(n as u32)
        } else {
            None
        },
        _ => None,
    }
}

fn read_pixels(v: Option<&JsonValue>) -> (r: Option<u32>)
    ensures
        r == pixels(json::opt_model(v)),
{
    match v {
        Some(JsonValue::Integer(n)) => {
            if *n >= 0 && *n <= u32::MAX as i128 {
                Some(*n as u32)
            } else {
                None
            }
        },
        _ => None,
    }
}

/// What an answer to a request for the size gives.
pub open spec fn size_given(v: Json) -> Result<ScreenSize, AdapterError<Seq<char>>> {
    match pixels(inner_value(v).get("width"@)) {
        None => Err(AdapterError::IosUsbUnavailable("WDA 未返回屏幕宽度"@)),
        Some(width) => match pixels(inner_value(v).get("height"@)) {
            None => Err(AdapterError::IosUsbUnavailable("WDA 未返回屏幕高度"@)),
            Some(height) => Ok(ScreenSize { width, height }),
        },
    }
}

pub open spec fn size_outcome(r: Result<ScreenSize, AdapterError>) -> Result<
    ScreenSize,
    AdapterError<Seq<char>>,
> {
    match r {
        Ok(s) => Ok(s),
        Err(e) => Err(e@),
    }
}

/// Reads the size of the screen out of an answer.
pub fn read_size(v: &JsonValue) -> (r: Result<ScreenSize, AdapterError>)
    ensures
        size_outcome(r) == size_given(v@),
{
    let value = inner(v);
    match read_pixels(value.get("width")) {
        None => Err(AdapterError::IosUsbUnavailable(text::own("WDA 未返回屏幕宽度"))),
        Some(width) => match read_pixels(value.get("height")) {
            None => Err(AdapterError::IosUsbUnavailable(text::own("WDA 未返回屏幕高度"))),
            Some(height) => Ok(ScreenSize { width, height }),
        },
    }
}

// ---------------------------------------------------------------------------
// Actions
// ---------------------------------------------------------------------------

/// The move of a pointer to a point.
pub open spec fn pointer_move_action(x: u32, y: u32) -> Json {
    Json::Object(
        seq![
            ("duration"@, Json::Integer(0)),
            ("origin"@, Json::Text("viewport"@)),
            ("type"@, Json::Text("pointerMove"@)),
            ("x"@, Json::Integer(x as int)),
            ("y"@, Json::Integer(y as int)),
        ],
    )
}

fn move_action(x: u32, y: u32) -> (r: JsonValue)
    ensures
        r@ == pointer_move_action(x, y),
        json::writable(r@, 2),
{
    let mut o: Vec<(String, JsonValue)> = Vec::new();
    json::push_member(&mut o, "duration", JsonValue::Integer(0));
    json::push_member(&mut o, "origin", text_value("viewport"));
    json::push_member(&mut o, "type", text_value("pointerMove"));
    json::push_member(&mut o, "x", JsonValue::Integer(x as i128));
    json::push_member(&mut o, "y", JsonValue::Integer(y as i128));
    let r = json::object_value(o);
    proof {
        lemma_names();
        let s = pointer_move_action(x, y)->Object_0;
        assert(json::members(o@) =~= s);
        json::lemma_object_writable(s, 1);
    }
    r
}

/// The press or release of a pointer.
pub open spec fn pointer_button_action(pressed: bool) -> Json {
    Json::Object(
        seq![
            ("button"@, Json::Integer(0)),
            (
                "type"@,
                Json::Text(
                    if pressed {
                        "pointerDown"@
                    } else {
                        "pointerUp"@
                    },
                ),
            ),
        ],
    )
}

fn button_action(pressed: bool) -> (r: JsonValue)
    ensures
        r@ == pointer_button_action(pressed),
        json::writable(r@, 2),
{
    let name = if pressed {
        "pointerDown"
    } else {
        "pointerUp"
    };
    proof {
        lemma_names();
        json::lemma_object_writable(pointer_button_action(pressed)->Object_0, 1);
    }
    object2("button", JsonValue::Integer(0), "type", text_value(name))
}

/// The body that makes the touch pointer act.
pub open spec fn touch_body(actions: Seq<Json>) -> Json {
    Json::Object(
        seq![
            (
                "actions"@,
                Json::Array(
                    seq![
                        Json::Object(
                            seq![
                                ("actions"@, Json::Array(actions)),
                                ("id"@, Json::Text("phonebridge-touch"@)),
                                (
                                    "parameters"@,
                                    Json::Object(
                                        seq![("pointerType"@, Json::Text("touch"@))],
                                    ),
                                ),
                                ("type"@, Json::Text("pointer"@)),
                            ],
                        ),
                    ],
                ),
            ),
        ],
    )
}

fn touch_payload(actions: Vec<JsonValue>) -> (r: JsonValue)
    requires
        forall|i: int| 0 <= i < actions@.len() ==> json::writable(#[trigger] actions@[i]@, 2),
    ensures
        r@ == touch_body(json::contents(actions@)),
        json::writable(r@, json::max_depth()),
{
    let ghost list = json::contents(actions@);
    let mut o: Vec<(String, JsonValue)> = Vec::new();
    json::push_member(&mut o, "actions", json::list_value(actions));
    json::push_member(&mut o, "id", text_value("phonebridge-touch"));
    json::push_member(&mut o, "parameters", object1("pointerType", text_value("touch")));
    json::push_member(&mut o, "type", text_value("pointer"));
    let ghost source = json::members(o@);
    let r = object1("actions", list1(json::object_value(o)));
    proof {
        lemma_names();
        let kind = Json::Object(seq![("pointerType"@, Json::Text("touch"@))]);
        assert forall|i: int| 0 <= i < list.len() implies json::writable(#[trigger] list[i], 2) by {
            assert(list[i] == actions@[i]@);
        }
        assert(json::writable(Json::Array(list), 3));
        json::lemma_object_writable(seq![("pointerType"@, Json::Text("touch"@))], 1);
        json::lemma_writable_deeper(kind, 2, 3);
        let s = seq![
            ("actions"@, Json::Array(list)),
            ("id"@, Json::Text("phonebridge-touch"@)),
            ("parameters"@, kind),
            ("type"@, Json::Text("pointer"@)),
        ];
        assert(source =~= s);
        json::lemma_object_writable(s, 3);
        lemma_actions_writable(seq![Json::Object(s)], 4);
    }
    r
}

proof fn lemma_actions_writable(list: Seq<Json>, depth: nat)
    requires
        list.len() == 1,
        json::writable(list[0], depth),
        depth <= 10,
    ensures
        json::writable(Json::Object(seq![("actions"@, Json::Array(list))]), json::max_depth()),
{
    assert(json::writable(Json::Array(list), depth + 1));
    let o = seq![("actions"@, Json::Array(list))];
    json::lemma_object_writable(o, depth + 1);
    json::lemma_writable_deeper(Json::Object(o), depth + 2, json::max_depth());
}

/// The body that moves the pointer.
pub open spec fn move_body(x: u32, y: u32) -> Json {
    touch_body(seq![pointer_move_action(x, y)])
}

/// The body that moves the pointer and presses or releases it there.
pub open spec fn button_body(x: u32, y: u32, pressed: bool) -> Json {
    touch_body(seq![pointer_move_action(x, y), pointer_button_action(pressed)])
}

/// The body that releases the pointer where it is.
pub open spec fn lift_body() -> Json {
    touch_body(seq![pointer_button_action(false)])
}

/// Moves the pointer.
pub fn move_request(session: &str, x: u32, y: u32) -> (r: Result<WdaRequest, AdapterError>)
    ensures
        request_outcome(r) == sending_in(
            session@,
            "/actions"@,
            move_body(x, y),
        ),
{
    let path = match session_path(session, "/actions") {
        Ok(p) => p,
        Err(e) => {
            return Err(e);
        },
    };
    let mut actions: Vec<JsonValue> = Vec::new();
    actions.push(move_action(x, y));
    assert(json::contents(actions@) =~= seq![pointer_move_action(x, y)]);
    let body = touch_payload(actions);
    Ok(sending_request(path, &body))
}

/// Moves the pointer and presses or releases it there.
pub fn button_request(session: &str, x: u32, y: u32, pressed: bool) -> (r: Result<
    WdaRequest,
    AdapterError,
>)
    ensures
        request_outcome(r) == sending_in(
            session@,
            "/actions"@,
            button_body(x, y, pressed),
        ),
{
    let path = match session_path(session, "/actions") {
        Ok(p) => p,
        Err(e) => {
            return Err(e);
        },
    };
    let mut actions: Vec<JsonValue> = Vec::new();
    actions.push(move_action(x, y));
    actions.push(button_action(pressed));
    assert(json::contents(actions@) =~= seq![
        pointer_move_action(x, y),
        pointer_button_action(pressed),
    ]);
    let body = touch_payload(actions);
    Ok(sending_request(path, &body))
}

/// Releases the pointer where it is.
pub fn lift_request(session: &str) -> (r: Result<WdaRequest, AdapterError>)
    ensures
        request_outcome(r) == sending_in(
            session@,
            "/actions"@,
            lift_body(),
        ),
{
    let path = match session_path(session, "/actions") {
        Ok(p) => p,
        Err(e) => {
            return Err(e);
        },
    };
    let mut actions: Vec<JsonValue> = Vec::new();
    actions.push(button_action(false));
    assert(json::contents(actions@) =~= seq![pointer_button_action(false)]);
    let body = touch_payload(actions);
    Ok(sending_request(path, &body))
}

/// The scroll of a wheel at a point.
pub open spec fn scroll_action(x: u32, y: u32, delta_y: i32) -> Json {
    Json::Object(
        seq![
            ("deltaX"@, Json::Integer(0)),
            ("deltaY"@, Json::Integer(delta_y as int)),
            ("duration"@, Json::Integer(0)),
            ("origin"@, Json::Text("viewport"@)),
            ("type"@, Json::Text("scroll"@)),
            ("x"@, Json::Integer(x as int)),
            ("y"@, Json::Integer(y as int)),
        ],
    )
}

/// The body that makes the wheel or the keyboard act.
pub open spec fn source_body(id: Seq<char>, kind: Seq<char>, actions: Seq<Json>) -> Json {
    Json::Object(
        seq![
            (
                "actions"@,
                Json::Array(
                    seq![
                        Json::Object(
                            seq![
                                ("actions"@, Json::Array(actions)),
                                ("id"@, Json::Text(id)),
                                ("type"@, Json::Text(kind)),
                            ],
                        ),
                    ],
                ),
            ),
        ],
    )
}

fn source_payload(id: &str, kind: &str, actions: Vec<JsonValue>) -> (r: JsonValue)
    requires
        forall|i: int| 0 <= i < actions@.len() ==> json::writable(#[trigger] actions@[i]@, 2),
    ensures
        r@ == source_body(id@, kind@, json::contents(actions@)),
        json::writable(r@, json::max_depth()),
{
    let ghost list = json::contents(actions@);
    let mut o: Vec<(String, JsonValue)> = Vec::new();
    json::push_member(&mut o, "actions", json::list_value(actions));
    json::push_member(&mut o, "id", text_value(id));
    json::push_member(&mut o, "type", text_value(kind));
    let ghost source = json::members(o@);
    let r = object1("actions", list1(json::object_value(o)));
    proof {
        lemma_names();
        assert forall|i: int| 0 <= i < list.len() implies json::writable(#[trigger] list[i], 2) by {
            assert(list[i] == actions@[i]@);
        }
        assert(json::writable(Json::Array(list), 3));
        let s = seq![
            ("actions"@, Json::Array(list)),
            ("id"@, Json::Text(id@)),
            ("type"@, Json::Text(kind@)),
        ];
        assert(source =~= s);
        json::lemma_object_writable(s, 3);
        lemma_actions_writable(seq![Json::Object(s)], 4);
    }
    r
}

/// Scrolls at a point.
pub fn scroll_request(session: &str, x: u32, y: u32, delta_y: i32) -> (r: Result<
    WdaRequest,
    AdapterError,
>)
    ensures
        request_outcome(r) == sending_in(
            session@,
            "/actions"@,
            source_body("phonebridge-wheel"@, "wheel"@, seq![scroll_action(x, y, delta_y)]),
        ),
{
    let path = match session_path(session, "/actions") {
        Ok(p) => p,
        Err(e) => {
            return Err(e);
        },
    };
    let mut o: Vec<(String, JsonValue)> = Vec::new();
    json::push_member(&mut o, "deltaX", JsonValue::Integer(0));
    json::push_member(&mut o, "deltaY", JsonValue::Integer(delta_y as i128));
    json::push_member(&mut o, "duration", JsonValue::Integer(0));
    json::push_member(&mut o, "origin", text_value("viewport"));
    json::push_member(&mut o, "type", text_value("scroll"));
    json::push_member(&mut o, "x", JsonValue::Integer(x as i128));
    json::push_member(&mut o, "y", JsonValue::Integer(y as i128));
    let ghost inner = json::members(o@);
    let mut actions: Vec<JsonValue> = Vec::new();
    actions.push(json::object_value(o));
    proof {
        lemma_names();
        let s = scroll_action(x, y, delta_y)->Object_0;
        assert(inner =~= s);
        json::lemma_object_writable(s, 1);
        assert(json::contents(actions@) =~= seq![scroll_action(x, y, delta_y)]);
    }
    let body = source_payload("phonebridge-wheel", "wheel", actions);
    Ok(sending_request(path, &body))
}

/// The press or release of a key.
pub open spec fn key_action(down: bool, value: Seq<char>) -> Json {
    Json::Object(
        seq![
            (
                "type"@,
                Json::Text(
                    if down {
                        "keyDown"@
                    } else {
                        "keyUp"@
                    },
                ),
            ),
            ("value"@, Json::Text(value)),
        ],
    )
}

/// The actions of a list of keys, in order: whether each goes down, and which it is.
pub open spec fn key_actions(keys: Seq<(bool, Seq<char>)>) -> Seq<Json> {
    Seq::new(keys.len(), |i: int| key_action(keys[i].0, keys[i].1))
}

pub open spec fn key_steps(v: Seq<(bool, String)>) -> Seq<(bool, Seq<char>)> {
    Seq::new(v.len(), |i: int| (v[i].0, v[i].1@))
}

/// Presses and releases keys.
pub fn key_request(session: &str, keys: &Vec<(bool, String)>) -> (r: Result<
    WdaRequest,
    AdapterError,
>)
    ensures
        request_outcome(r) == sending_in(
            session@,
            "/actions"@,
            source_body(
                "phonebridge-keyboard"@,
                "key"@,
                key_actions(key_steps(keys@)),
            ),
        ),
{
    let path = match session_path(session, "/actions") {
        Ok(p) => p,
        Err(e) => {
            return Err(e);
        },
    };
    let ghost all = key_actions(key_steps(keys@));
    let mut actions: Vec<JsonValue> = Vec::new();
    let mut i: usize = 0;
    while i < keys.len()
        invariant
            i <= keys@.len(),
            all == key_actions(key_steps(keys@)),
            actions@.len() == i,
            forall|j: int| 0 <= j < i ==> #[trigger] actions@[j]@ == all[j],
            forall|j: int| 0 <= j < i ==> json::writable(#[trigger] actions@[j]@, 2),
        decreases keys@.len() - i,
    {
        let name = if keys[i].0 {
            "keyDown"
        } else {
            "keyUp"
        };
        let a = object2("type", text_value(name), "value", text_value(keys[i].1.as_str()));
        proof {
            lemma_names();
            assert(a@ == all[i as int]);
            json::lemma_object_writable(a@->Object_0, 1);
        }
        actions.push(a);
        i = i + 1;
    }
    assert(json::contents(actions@) =~= all);
    let body = source_payload("phonebridge-keyboard", "key", actions);
    Ok(sending_request(path, &body))
}

// ---------------------------------------------------------------------------
// Text
// ---------------------------------------------------------------------------

/// The body that types a text.
pub open spec fn typing_body(s: Seq<char>) -> Json {
    Json::Object(
        seq![
            ("frequency"@, Json::Integer(WDA_TEXT_FREQUENCY as int)),
            ("value"@, Json::Array(seq![Json::Text(s)])),
        ],
    )
}

/// The body that types a text: the whole of it as one item, so that no sequence of
/// characters that belong together is split.
pub fn wda_keys_payload(s: &str) -> (r: JsonValue)
    ensures
        r@ == typing_body(s@),
        json::writable(r@, json::max_depth()),
{
    let r = object2(
        "frequency",
        JsonValue::Integer(WDA_TEXT_FREQUENCY as i128),
        "value",
        list1(text_value(s)),
    );
    proof {
        lemma_names();
        let list = seq![Json::Text(s@)];
        assert(json::writable(list[0], 1));
        assert(json::writable(Json::Array(list), 2));
        json::lemma_object_writable(typing_body(s@)->Object_0, 2);
        json::lemma_writable_deeper(typing_body(s@), 3, json::max_depth());
    }
    r
}

/// Types a text.
pub fn typing_request(session: &str, s: &str) -> (r: Result<WdaRequest, AdapterError>)
    ensures
        request_outcome(r) == sending_in(session@, "/wda/keys"@, typing_body(s@)),
{
    let path = match session_path(session, "/wda/keys") {
        Ok(p) => p,
        Err(e) => {
            return Err(e);
        },
    };
    let body = wda_keys_payload(s);
    Ok(sending_request(path, &body))
}

/// A text in batches of at most `WDA_TEXT_BATCH_CHARS` characters, from `start` on.
pub open spec fn batches_from(s: Seq<char>, start: int) -> Seq<Seq<char>>
    decreases s.len() - start,
{
    if start < 0 || start >= s.len() {
        Seq::empty()
    } else if s.len() - start <= WDA_TEXT_BATCH_CHARS {
        seq![s.subrange(start, s.len() as int)]
    } else {
        seq![s.subrange(start, start + WDA_TEXT_BATCH_CHARS)] + batches_from(
            s,
            start + WDA_TEXT_BATCH_CHARS,
        )
    }
}

/// A text in batches of at most `WDA_TEXT_BATCH_CHARS` characters.
pub fn text_batches(s: &str) -> (r: Vec<String>)
    ensures
        text::texts(r@) == batches_from(s@, 0),
{
    let v = text::chars_of(s);
    let n: usize = v.len();
    let mut out: Vec<String> = Vec::new();
    let mut at: usize = 0;
    assert(text::texts(out@) =~= Seq::<Seq<char>>::empty());
    while at < n
        invariant
            at <= n,
            n == v@.len(),
            v@ == s@,
            text::texts(out@) + batches_from(s@, at as int) == batches_from(s@, 0),
        decreases n - at,
    {
        let end: usize = if n - at <= WDA_TEXT_BATCH_CHARS {
            n
        } else {
            at + WDA_TEXT_BATCH_CHARS
        };
        let piece = text::text_of(vstd::slice::slice_subrange(v.as_slice(), at, end));
        let ghost before = text::texts(out@);
        let ghost rest = batches_from(s@, end as int);
        out.push(piece);
        proof {
            assert(text::texts(out@) =~= before.push(piece@));
            assert(batches_from(s@, at as int) =~= seq![piece@] + rest);
            assert(text::texts(out@) + rest =~= before + (seq![piece@] + rest));
        }
        at = end;
    }
    assert(text::texts(out@) + batches_from(s@, at as int) =~= text::texts(out@));
    out
}

/// The batches of a text put together are the text, and each of them is short and not empty.
pub proof fn batches_hold_the_text(s: Seq<char>, start: int)
    requires
        0 <= start <= s.len(),
    ensures
        batches_from(s, start).flatten() == s.subrange(start, s.len() as int),
        forall|i: int|
            0 <= i < batches_from(s, start).len() ==> 0 < (#[trigger] batches_from(s, start)[i]).len()
                <= WDA_TEXT_BATCH_CHARS,
    decreases s.len() - start,
{
    let all = batches_from(s, start);
    if start == s.len() {
        assert(all.flatten() =~= s.subrange(start, s.len() as int));
    } else if s.len() - start <= WDA_TEXT_BATCH_CHARS {
        assert(all.drop_first() =~= Seq::<Seq<char>>::empty());
        assert(all.drop_first().flatten() =~= Seq::<char>::empty());
        assert(all.flatten() =~= s.subrange(start, s.len() as int));
    } else {
        let mid = start + WDA_TEXT_BATCH_CHARS;
        let rest = batches_from(s, mid);
        batches_hold_the_text(s, mid);
        assert(all.drop_first() =~= rest);
        assert(s.subrange(start, mid) + s.subrange(mid, s.len() as int) =~= s.subrange(
            start,
            s.len() as int,
        ));
        assert(all.flatten() =~= s.subrange(start, s.len() as int));
        assert forall|i: int| 0 <= i < all.len() implies 0 < (#[trigger] all[i]).len()
            <= WDA_TEXT_BATCH_CHARS by {
            if i > 0 {
                assert(all[i] == rest[i - 1]);
            }
        }
    }
}

// ---------------------------------------------------------------------------
// Laws
// ---------------------------------------------------------------------------

proof fn lemma_member_names()
    ensures
        "x"@ != "y"@ && "x"@ != "type"@ && "x"@ != "duration"@ && "x"@ != "origin"@,
        "x"@ != "deltaX"@ && "x"@ != "deltaY"@ && "y"@ != "deltaX"@ && "y"@ != "deltaY"@,
        "y"@ != "type"@ && "y"@ != "duration"@ && "y"@ != "origin"@ && "deltaX"@ != "deltaY"@,
        "type"@ != "duration"@ && "type"@ != "origin"@ && "type"@ != "deltaX"@ && "type"@
            != "deltaY"@,
        "type"@ != "button"@ && "type"@ != "actions"@ && "type"@ != "id"@ && "type"@
            != "parameters"@ && "type"@ != "value"@,
        "id"@ != "actions"@ && "parameters"@ != "actions"@ && "parameters"@ != "id"@,
        "frequency"@ != "value"@,
        "origin"@ != "duration"@ && "origin"@ != "deltaX"@ && "origin"@ != "deltaY"@,
        "pointerDown"@ != "pointerUp"@ && "keyDown"@ != "keyUp"@,
{
    reveal_strlit("x");
    reveal_strlit("y");
    reveal_strlit("type");
    reveal_strlit("duration");
    reveal_strlit("origin");
    reveal_strlit("deltaX");
    reveal_strlit("deltaY");
    reveal_strlit("button");
    reveal_strlit("actions");
    reveal_strlit("id");
    reveal_strlit("parameters");
    reveal_strlit("value");
    reveal_strlit("frequency");
    reveal_strlit("pointerDown");
    reveal_strlit("pointerUp");
    reveal_strlit("keyDown");
    reveal_strlit("keyUp");
    assert("x"@.len() == 1 && "y"@.len() == 1 && "id"@.len() == 2 && "type"@.len() == 4
        && "value"@.len() == 5 && "origin"@.len() == 6 && "button"@.len() == 6 && "deltaX"@.len()
        == 6 && "deltaY"@.len() == 6 && "actions"@.len() == 7 && "duration"@.len() == 8
        && "frequency"@.len() == 9 && "parameters"@.len() == 10);
    assert("x"@[0] == 'x' && "y"@[0] == 'y');
    assert("deltaX"@[5] == 'X' && "deltaY"@[5] == 'Y');
    assert("origin"@[0] == 'o' && "deltaX"@[0] == 'd' && "deltaY"@[0] == 'd');
    assert("pointerDown"@.len() != "pointerUp"@.len() && "keyDown"@.len() != "keyUp"@.len());
}

/// The steps of a pointer read back: one that moves says where to, across under `x` and down
/// under `y`, at once and on the screen itself; one that presses says down and one that releases
/// says up; a scroll says where it is and how far it goes down.
pub proof fn pointer_steps_read_back(x: u32, y: u32, pressed: bool, delta_y: i32)
    ensures
        ({
            let m = pointer_move_action(x, y);
            let b = pointer_button_action(pressed);
            let s = scroll_action(x, y, delta_y);
            &&& m.get("x"@) == Some(Json::Integer(x as int)) && m.get("y"@) == Some(
                Json::Integer(y as int),
            )
            &&& m.get("type"@) == Some(Json::Text("pointerMove"@)) && m.get("origin"@) == Some(
                Json::Text("viewport"@),
            ) && m.get("duration"@) == Some(Json::Integer(0))
            &&& b.get("type"@) == Some(Json::Text("pointerDown"@)) <==> pressed
            &&& b.get("type"@) == Some(Json::Text("pointerUp"@)) <==> !pressed
            &&& b.get("button"@) == Some(Json::Integer(0))
            &&& s.get("x"@) == Some(Json::Integer(x as int)) && s.get("y"@) == Some(
                Json::Integer(y as int),
            ) && s.get("deltaY"@) == Some(Json::Integer(delta_y as int)) && s.get("deltaX"@)
                == Some(Json::Integer(0)) && s.get("type"@) == Some(Json::Text("scroll"@))
        }),
{
    lemma_member_names();
    reveal_with_fuel(json::member_at, 8);
}

/// The steps that a request with a list of actions holds.
pub open spec fn steps_in(body: Json) -> Seq<Json> {
    match body.get("actions"@) {
        Some(Json::Array(sources)) => match sources[0].get("actions"@) {
            Some(Json::Array(steps)) => steps,
            _ => Seq::empty(),
        },
        _ => Seq::empty(),
    }
}

/// A body that makes the touch pointer, the wheel or the keyboard act has that one source, says
/// what it is, and holds the steps as they are given.
pub proof fn bodies_hold_their_steps(steps: Seq<Json>, id: Seq<char>, kind: Seq<char>)
    ensures
        steps_in(touch_body(steps)) == steps,
        steps_in(source_body(id, kind, steps)) == steps,
        touch_body(steps).get("actions"@) matches Some(Json::Array(sources)) && sources.len() == 1
            && sources[0].get("type"@) == Some(Json::Text("pointer"@)) && json::get_in(
            sources[0].get("parameters"@),
            "pointerType"@,
        ) == Some(Json::Text("touch"@)),
        source_body(id, kind, steps).get("actions"@) matches Some(Json::Array(sources))
            && sources.len() == 1 && sources[0].get("type"@) == Some(Json::Text(kind))
            && sources[0].get("id"@) == Some(Json::Text(id)),
{
    lemma_member_names();
    reveal_with_fuel(json::member_at, 5);
}

/// A touch goes to its place before anything else: moving is one step to the place, pressing and
/// releasing are a step to the place and then the press or release, and lifting is a release
/// alone.
pub proof fn touches_go_to_their_place_first(x: u32, y: u32, pressed: bool)
    ensures
        ({
            let m = steps_in(move_body(x, y));
            let b = steps_in(button_body(x, y, pressed));
            let l = steps_in(lift_body());
            &&& m.len() == 1 && b.len() == 2 && l.len() == 1
            &&& m[0].get("type"@) == Some(Json::Text("pointerMove"@)) && b[0] == m[0]
            &&& m[0].get("x"@) == Some(Json::Integer(x as int)) && m[0].get("y"@) == Some(
                Json::Integer(y as int),
            )
            &&& b[1].get("type"@) == Some(Json::Text("pointerDown"@)) <==> pressed
            &&& b[1].get("type"@) == Some(Json::Text("pointerUp"@)) <==> !pressed
            &&& l[0].get("type"@) == Some(Json::Text("pointerUp"@))
        }),
{
    pointer_steps_read_back(x, y, pressed, 0);
    pointer_steps_read_back(x, y, false, 0);
    bodies_hold_their_steps(seq![pointer_move_action(x, y)], ""@, ""@);
    bodies_hold_their_steps(
        seq![pointer_move_action(x, y), pointer_button_action(pressed)],
        ""@,
        ""@,
    );
    bodies_hold_their_steps(seq![pointer_button_action(false)], ""@, ""@);
}

/// Keys are pressed and released in their order, each under its own value.
pub proof fn key_steps_read_back(keys: Seq<(bool, Seq<char>)>, i: int)
    requires
        0 <= i < keys.len(),
    ensures
        ({
            let steps = steps_in(source_body("phonebridge-keyboard"@, "key"@, key_actions(keys)));
            &&& steps.len() == keys.len()
            &&& steps[i].get("value"@) == Some(Json::Text(keys[i].1))
            &&& steps[i].get("type"@) == Some(Json::Text("keyDown"@)) <==> keys[i].0
            &&& steps[i].get("type"@) == Some(Json::Text("keyUp"@)) <==> !keys[i].0
        }),
{
    lemma_member_names();
    reveal_with_fuel(json::member_at, 3);
    bodies_hold_their_steps(key_actions(keys), "phonebridge-keyboard"@, "key"@);
}

/// A text is typed as one item, at six hundred characters a minute.
pub proof fn texts_are_typed_whole(s: Seq<char>)
    ensures
        typing_body(s).get("value"@) == Some(Json::Array(seq![Json::Text(s)])),
        typing_body(s).get("frequency"@) == Some(Json::Integer(600)),
{
    lemma_member_names();
    reveal_with_fuel(json::member_at, 3);
}

/// A session is asked for on an iPhone, by the phone's own name exactly where there is one.
pub proof fn sessions_are_asked_for_by_phone(udid: Option<Seq<char>>)
    ensures
        ({
            let wanted = json::get_in(session_body(udid).get("capabilities"@), "alwaysMatch"@);
            &&& json::get_in(wanted, "platformName"@) == Some(Json::Text("iOS"@))
            &&& json::get_in(wanted, "appium:automationName"@) == Some(Json::Text("XCUITest"@))
            &&& json::get_in(wanted, "appium:noReset"@) == Some(Json::Bool(true))
            &&& json::get_in(wanted, "appium:newCommandTimeout"@) == Some(Json::Integer(3600))
            &&& udid matches Some(u) ==> json::get_in(wanted, "appium:udid"@) == Some(Json::Text(u))
            &&& udid is None ==> json::get_in(wanted, "appium:udid"@) is None
        }),
{
    reveal_strlit("appium:automationName");
    reveal_strlit("appium:newCommandTimeout");
    reveal_strlit("appium:noReset");
    reveal_strlit("appium:udid");
    reveal_strlit("platformName");
    assert("appium:automationName"@.len() == 21 && "appium:newCommandTimeout"@.len() == 24
        && "appium:noReset"@.len() == 14 && "appium:udid"@.len() == 11 && "platformName"@.len()
        == 12);
    reveal_with_fuel(json::member_at, 6);
    assert(json::get_in(session_body(udid).get("capabilities"@), "alwaysMatch"@) == Some(
        wanted_capabilities(udid),
    ));
}

/// A session has the name that the answer gives it, first inside the value and else beside it,
/// and only a name that is not empty and safe in a path is taken.
pub proof fn sessions_have_the_given_name(v: Json, inside: Json, name: Seq<char>)
    ensures
        session_given(v) matches Ok(s) ==> s.len() > 0 && is_safe(s),
        name.len() > 0 && is_safe(name) && v.get("value"@) == Some(inside) && inside.get(
            "sessionId"@,
        ) == Some(Json::Text(name)) ==> session_given(v) == Ok::<_, AdapterError<Seq<char>>>(name),
        name.len() > 0 && is_safe(name) && v.get("value"@) == Some(inside) && inside.get(
            "sessionId"@,
        ) is None && v.get("sessionId"@) == Some(Json::Text(name)) ==> session_given(v) == Ok::<
            _,
            AdapterError<Seq<char>>,
        >(name),
        name.len() > 0 && is_safe(name) && v.get("value"@) is None && v.get("sessionId"@) == Some(
            Json::Text(name),
        ) ==> session_given(v) == Ok::<_, AdapterError<Seq<char>>>(name),
        !is_safe(name) && v.get("value"@) == Some(inside) && inside.get("sessionId"@) == Some(
            Json::Text(name),
        ) ==> session_given(v) is Err,
{
}

/// The size of a screen is what the answer says under `width` and `height`; without either there
/// is none.
pub proof fn sizes_read_back(v: Json, inside: Json, width: u32, height: u32)
    requires
        v.get("value"@) == Some(inside),
    ensures
        inside.get("width"@) == Some(Json::Integer(width as int)) && inside.get("height"@) == Some(
            Json::Integer(height as int),
        ) ==> (size_given(v) matches Ok(s) && s.width == width && s.height == height),
        inside.get("width"@) is None || inside.get("height"@) is None ==> size_given(v) is Err,
{
}

/// Requests within a session stay below its path; without a session there is none.
pub proof fn paths_stay_within_the_session(
    session: Seq<char>,
    suffix: Seq<char>,
    method: WdaMethod,
    v: Json,
)
    ensures
        session.len() == 0 ==> bare_in(method, session, suffix) is Err && sending_in(
            session,
            suffix,
            v,
        ) is Err,
        session.len() > 0 ==> (bare_in(method, session, suffix) matches Ok(q) && q.method == method
            && q.body is None && q.path == "/session/"@ + session + suffix),
        session.len() > 0 ==> (sending_in(session, suffix, v) matches Ok(q) && q.method is Post
            && q.body == Some(json::text_of_json(v)) && q.path == "/session/"@ + session + suffix),
{
}

/// An answer is one to the question for the status where it names a value or a status.
pub proof fn statuses_name_a_value_or_a_status(v: Json)
    ensures
        v.get("value"@) is Some ==> is_status(v),
        v.get("status"@) is Some ==> is_status(v),
        is_status(v) ==> v is Object,
{
}

} // verus!
