//! The remote image lister: what is sent to the backend, and what its answer
//! means.

use vstd::prelude::*;
use vstd::string::StringExecFns;
use crate::error::{ClientError, ClientErrorView};
use crate::json::{json_reading, reading_view, Json, JsonData};

verus! {

/// Where the list of images is asked for, by `POST`.
pub const IMAGE_LIST_ENDPOINT: &'static str =
    "https://backend.nebularfantasy.com:9001/api/backend/getSmallGameTemplateImg";

/// The detail of a `ClientError::Parse` for an answer that is a JSON document
/// but no image list.
pub const SHAPE_FAULT: &'static str = "the document is not an image list response";

/// The decimal digit `d`.
pub open spec fn digit(d: int) -> char {
    if d == 0 {
        '0'
    } else if d == 1 {
        '1'
    } else if d == 2 {
        '2'
    } else if d == 3 {
        '3'
    } else if d == 4 {
        '4'
    } else if d == 5 {
        '5'
    } else if d == 6 {
        '6'
    } else if d == 7 {
        '7'
    } else if d == 8 {
        '8'
    } else {
        '9'
    }
}

/// `n` in decimal digits, without leading zeros.
pub open spec fn digits(n: nat) -> Seq<char>
    decreases n,
{
    if n < 10 {
        seq![digit(n as int)]
    } else {
        digits(n / 10).push(digit((n % 10) as int))
    }
}

/// `n` in decimal, with `-` in front of a negative number.
pub open spec fn decimal(n: int) -> Seq<char> {
    if n < 0 {
        seq!['-'] + digits((-n) as nat)
    } else {
        digits(n as nat)
    }
}

/// The JSON text that asks for `count` images.
pub open spec fn request_body_of(count: int) -> Seq<char> {
    "{\"num\":"@ + decimal(count) + "}"@
}

/// The digit `d` as a text of one character.
fn digit_text(d: u32) -> (text: &'static str)
    requires
        d < 10,
    ensures
        text@ == seq![digit(d as int)],
{
    proof {
        reveal_strlit("0");
        reveal_strlit("1");
        reveal_strlit("2");
        reveal_strlit("3");
        reveal_strlit("4");
        reveal_strlit("5");
        reveal_strlit("6");
        reveal_strlit("7");
        reveal_strlit("8");
        reveal_strlit("9");
    }
    let text = if d == 0 {
        "0"
    } else if d == 1 {
        "1"
    } else if d == 2 {
        "2"
    } else if d == 3 {
        "3"
    } else if d == 4 {
        "4"
    } else if d == 5 {
        "5"
    } else if d == 6 {
        "6"
    } else if d == 7 {
        "7"
    } else if d == 8 {
        "8"
    } else {
        "9"
    };
    assert(text@ =~= seq![digit(d as int)]);
    text
}

/// Writes `n` in decimal at the end of `text`.
fn append_digits(text: &mut String, n: u32)
    ensures
        final(text)@ == old(text)@ + digits(n as nat),
    decreases n,
{
    if n >= 10 {
        append_digits(text, n / 10);
    }
    text.append(digit_text(n % 10));
}

/// What is sent to the backend to ask for a list of images.
#[derive(Debug, Clone, Copy, PartialEq, Eq)]
pub struct ImageListRequest {
    /// How many images are asked for. The backend decides what it accepts.
    pub count: i32,
}

impl ImageListRequest {
    /// The request as JSON text: one member, `num`.
    pub fn body(&self) -> (text: String)
        ensures
            text@ == request_body_of(self.count as int),
    {
        let mut text = String::from_str("{\"num\":");
        let magnitude: u32 = if self.count < 0 {
            text.append("-");
            (-(self.count as i64)) as u32
        } else {
            self.count as u32
        };
        proof {
            reveal_strlit("-");
            assert("-"@ =~= seq!['-']);
        }
        append_digits(&mut text, magnitude);
        text.append("}");
        text
    }
}

/// The backend's answer. Only `data` is used.
#[derive(Debug, PartialEq, Eq)]
pub struct ImageListResponse {
    pub success: bool,
    pub message: String,
    pub status: i32,
    /// The addresses of the images, in the order in which they were sent.
    pub data: Vec<String>,
}

/// What an `ImageListResponse` holds.
pub struct ImageListResponseView {
    pub success: bool,
    pub message: Seq<char>,
    pub status: i32,
    pub data: Seq<Seq<char>>,
}

impl View for ImageListResponse {
    type V = ImageListResponseView;

    open spec fn view(&self) -> ImageListResponseView {
        ImageListResponseView {
            success: self.success,
            message: self.message@,
            status: self.status,
            data: self.data.deep_view(),
        }
    }
}

/// Whether each of `items` is a text.
pub open spec fn all_texts(items: Seq<JsonData>) -> bool {
    forall|i: int| 0 <= i < items.len() ==> (#[trigger] items[i]) is Text
}

/// The texts that `items` hold, in their order.
pub open spec fn texts_of(items: Seq<JsonData>) -> Seq<Seq<char>> {
    Seq::new(items.len(), |i: int| items[i]->Text_0)
}

/// The answer that `doc` holds: an object with a boolean `success`, a text
/// `message`, a `status` that is an integer of 32 bits and a list `data` of
/// texts. Other members are passed over. `None` for any other document.
pub open spec fn response_of(doc: JsonData) -> Option<ImageListResponseView> {
    match (
        doc.member("success"@),
        doc.member("message"@),
        doc.member("status"@),
        doc.member("data"@),
    ) {
        (
            Some(JsonData::Bool(success)),
            Some(JsonData::Text(message)),
            Some(JsonData::Number(Some(status))),
            Some(JsonData::List(items)),
        ) => if i32::MIN <= status <= i32::MAX && all_texts(items) {
            Some(
                ImageListResponseView {
                    success,
                    message,
                    status: status as i32,
                    data: texts_of(items),
                },
            )
        } else {
            None
        },
        _ => None,
    }
}

/// Copies the texts out of `items`; `None` as soon as one is no text.
fn texts(items: &Vec<Json>) -> (r: Option<Vec<String>>)
    ensures
        match r {
            Some(found) => all_texts(Json::List(*items)@->List_0) && found.deep_view()
                == texts_of(Json::List(*items)@->List_0),
            None => !all_texts(Json::List(*items)@->List_0),
        },
{
    let ghost all = Json::List(*items)@->List_0;
    let mut found: Vec<String> = Vec::new();
    let mut i: usize = 0;
    while i < items.len()
        invariant
            i <= items.len(),
            all == Json::List(*items)@->List_0,
            all.len() == items.len(),
            forall|j: int| 0 <= j < items.len() ==> #[trigger] all[j] == items[j]@,
            found.len() == i,
            forall|j: int| 0 <= j < i ==> (#[trigger] all[j]) is Text,
            forall|j: int| 0 <= j < i ==> #[trigger] found[j]@ == all[j]->Text_0,
        decreases items.len() - i,
    {
        match &items[i] {
            Json::Text(text) => {
                found.push(text.clone());
            },
            _ => {
                assert(!(all[i as int] is Text));
                return None;
            },
        }
        i = i + 1;
    }
    assert(found.deep_view() =~= texts_of(all));
    Some(found)
}

impl ImageListResponse {
    /// Reads the answer out of a JSON document.
    pub fn from_json(doc: &Json) -> (r: Option<ImageListResponse>)
        ensures
            match r {
                Some(response) => response_of(doc@) == Some(response@),
                None => response_of(doc@) is None,
            },
    {
        let success = match doc.member("success") {
            Some(Json::Bool(b)) => *b,
            _ => { return None; },
        };
        let message = match doc.member("message") {
            Some(Json::Text(text)) => text.clone(),
            _ => { return None; },
        };
        let status = match doc.member("status") {
            Some(Json::Number(Some(n))) => {
                if *n < i32::MIN as i64 || *n > i32::MAX as i64 {
                    return None;
                }
                *n as i32
            },
            _ => { return None; },
        };
        let data = match doc.member("data") {
            Some(Json::List(items)) => match texts(items) {
                Some(found) => found,
                None => { return None; },
            },
            _ => { return None; },
        };
        Some(ImageListResponse { success, message, status, data })
    }
}

/// What the outcome of a listing holds.
pub open spec fn listing_view(r: Result<Vec<String>, ClientError>) -> Result<
    Seq<Seq<char>>,
    ClientErrorView,
> {
    match r {
        Ok(urls) => Ok(urls.deep_view()),
        Err(e) => Err(e@),
    }
}

/// The outcome of a listing whose answer `raw` was read as `reading`: the
/// addresses under `data`, in their order, where the answer is an image list;
/// else a `Parse` failure that holds the answer as it was received.
pub open spec fn image_list_of(reading: Result<JsonData, Seq<char>>, raw: Seq<char>) -> Result<
    Seq<Seq<char>>,
    ClientErrorView,
> {
    match reading {
        Ok(doc) => match response_of(doc) {
            Some(response) => Ok(response.data),
            None => Err(ClientErrorView::Parse { detail: SHAPE_FAULT@, raw }),
        },
        Err(fault) => Err(ClientErrorView::Parse { detail: fault, raw }),
    }
}

/// A listing whose answer could not be read as JSON fails, and every failure
/// to make a list of the answer is a `Parse` failure that holds the answer as
/// it was received; its message ends with that text.
pub proof fn lemma_parse_failure_holds_the_answer(
    reading: Result<JsonData, Seq<char>>,
    raw: Seq<char>,
)
    ensures
        reading is Err ==> image_list_of(reading, raw) is Err,
        image_list_of(reading, raw) matches Err(failure) ==> {
            &&& failure matches ClientErrorView::Parse { raw: kept, .. }
            &&& kept == raw
            &&& failure.message().len() >= raw.len()
            &&& failure.message().skip(failure.message().len() - raw.len()) == raw
        },
{
    if let Err(failure) = image_list_of(reading, raw) {
        let detail = failure->Parse_detail;
        let front = "JSON parse error: "@ + detail + " for text: "@;
        assert(failure.message() == front + raw);
        assert((front + raw).skip(front.len() as int) == raw);
    }
}

/// The outcome of a listing, from the answer `raw` and what reading it as JSON
/// gave.
pub fn image_list_from(reading: Result<Json, String>, raw: &str) -> (r: Result<
    Vec<String>,
    ClientError,
>)
    ensures
        listing_view(r) == image_list_of(reading_view(reading), raw@),
{
    match reading {
        Ok(doc) => match ImageListResponse::from_json(&doc) {
            Some(response) => Ok(response.data),
            None => Err(
                ClientError::Parse { detail: String::from_str(SHAPE_FAULT), raw: raw.to_owned() },
            ),
        },
        Err(fault) => Err(ClientError::Parse { detail: fault, raw: raw.to_owned() }),
    }
}

/// Reads the backend's answer `text`: the addresses of the images that it
/// lists. Of a member that the answer holds twice, the last counts.
pub fn read_image_list(text: &str) -> (r: Result<Vec<String>, ClientError>)
    ensures
        listing_view(r) == image_list_of(json_reading(text@), text@),
{
    image_list_from(Json::parse(text), text)
}

/// How the one request of a listing ended.
#[derive(Debug, PartialEq, Eq)]
pub enum ListReply {
    /// The request could not be sent; the reason is held.
    SendFailed(String),
    /// The answer's body could not be read as text; the reason is held.
    ReadFailed(String),
    /// The whole body of the answer.
    Body(String),
}

/// What a `ListReply` holds.
pub enum ListReplyView {
    SendFailed(Seq<char>),
    ReadFailed(Seq<char>),
    Body(Seq<char>),
}

impl View for ListReply {
    type V = ListReplyView;

    open spec fn view(&self) -> ListReplyView {
        match self {
            ListReply::SendFailed(reason) => ListReplyView::SendFailed(reason@),
            ListReply::ReadFailed(reason) => ListReplyView::ReadFailed(reason@),
            ListReply::Body(text) => ListReplyView::Body(text@),
        }
    }
}

/// The outcome of a listing whose request ended as `reply`.
pub open spec fn listing_of(reply: ListReplyView) -> Result<Seq<Seq<char>>, ClientErrorView> {
    match reply {
        ListReplyView::SendFailed(reason) => Err(
            ClientErrorView::Network("Request error: "@ + reason),
        ),
        ListReplyView::ReadFailed(reason) => Err(
            ClientErrorView::Network("Failed to get response text: "@ + reason),
        ),
        ListReplyView::Body(text) => image_list_of(json_reading(text), text),
    }
}

/// Ends a listing: the addresses that the backend sent, or the failure. A
/// failure is final; nothing is tried again.
pub fn list_images(reply: ListReply) -> (r: Result<Vec<String>, ClientError>)
    ensures
        listing_view(r) == listing_of(reply@),
{
    match reply {
        ListReply::SendFailed(reason) => {
            let mut text = String::from_str("Request error: ");
            text.append(reason.as_str());
            Err(ClientError::Network(text))
        },
        ListReply::ReadFailed(reason) => {
            let mut text = String::from_str("Failed to get response text: ");
            text.append(reason.as_str());
            Err(ClientError::Network(text))
        },
        ListReply::Body(text) => read_image_list(text.as_str()),
    }
}

} // verus!
