//! Request builder for the Gemini wire protocol.
//!
//! Converts the normalized conversation (`ResponseItem`) into Gemini's
//! `contents[].parts[]` shape. The builder never fails: items a vendor
//! cannot represent are skipped, malformed function-call arguments
//! degrade to an empty JSON object, and a function result whose call id
//! is unknown falls back to a sentinel name.

use vstd::prelude::*;
use vstd::string::StrSliceExecFns;
use vstd::string::StringExecFns;
use crate::endpoint::Provider;
use crate::model::ApiError;
use crate::model::ContentItem;
use crate::model::ContentItemV;
use crate::model::FunctionCallOutputContentItem;
use crate::model::FunctionCallOutputContentItemV;
use crate::model::FunctionCallOutputPayload;
use crate::model::FunctionCallOutputPayloadV;
use crate::model::ResponseItem;
use crate::model::ResponseItemV;
use crate::model::SessionSource;
use crate::model::ToolSpec;
use crate::model::ToolSpecV;
use crate::model::items_view;
use crate::model::opt_str_view;
use crate::model::pairs_view;
use crate::model::tools_view;
use crate::text::str_eq;

verus! {

/// Whether `serde_json` parses this text as a JSON value; a function of
/// the text alone.
pub uninterp spec fn json_text_valid(s: Seq<char>) -> bool;

/// Relies on `serde_json::from_str::<serde_json::Value>`: it returns
/// `Ok` exactly when the text is valid JSON.
#[verifier::external_body]
fn is_valid_json(s: &str) -> (r: bool)
    ensures
        r == json_text_valid(s@),
{
    serde_json::from_str::<serde_json::Value>(s).is_ok()
}

/// One part of a Gemini content entry.
#[derive(Debug, Clone, PartialEq, Eq)]
pub enum GeminiPart {
    /// A plain text part.
    Text { text: String },
    /// An inline image: MIME type and base64 payload split out of a
    /// data URL.
    InlineData { mime_type: String, data: String },
    /// A remote image reference.
    FileData { file_uri: String, mime_type: String },
    /// The model emits a function call; the arguments are JSON text.
    FunctionCall { name: String, args_json: String },
    /// A tool result handed back to the model.
    FunctionResponse { name: String, response: GeminiFunctionResponse },
}

/// The payload of a function response: structured text parts, or one
/// plain output string.
#[derive(Debug, Clone, PartialEq, Eq)]
pub enum GeminiFunctionResponse {
    Parts { parts: Vec<GeminiResponsePart> },
    Output { output: String },
}

/// One text part of a structured function response; parts a vendor
/// cannot represent (images) are dropped before this point.
#[derive(Debug, Clone, PartialEq, Eq)]
pub struct GeminiResponsePart {
    pub text: String,
}

/// Spec-level image of a `GeminiPart`.
pub enum GeminiPartV {
    Text { text: Seq<char> },
    InlineData { mime_type: Seq<char>, data: Seq<char> },
    FileData { file_uri: Seq<char>, mime_type: Seq<char> },
    FunctionCall { name: Seq<char>, args_json: Seq<char> },
    FunctionResponse { name: Seq<char>, response: GeminiFunctionResponseV },
}

/// Spec-level image of a `GeminiFunctionResponse`.
pub enum GeminiFunctionResponseV {
    Parts { parts: Seq<Seq<char>> },
    Output { output: Seq<char> },
}

impl View for GeminiFunctionResponse {
    type V = GeminiFunctionResponseV;

    open spec fn view(&self) -> GeminiFunctionResponseV {
        match self {
            GeminiFunctionResponse::Parts { parts } => GeminiFunctionResponseV::Parts {
                parts: parts@.map(|i: int, p: GeminiResponsePart| p.text@),
            },
            GeminiFunctionResponse::Output { output } => GeminiFunctionResponseV::Output {
                output: output@,
            },
        }
    }
}

impl View for GeminiPart {
    type V = GeminiPartV;

    open spec fn view(&self) -> GeminiPartV {
        match self {
            GeminiPart::Text { text } => GeminiPartV::Text { text: text@ },
            GeminiPart::InlineData { mime_type, data } => GeminiPartV::InlineData {
                mime_type: mime_type@,
                data: data@,
            },
            GeminiPart::FileData { file_uri, mime_type } => GeminiPartV::FileData {
                file_uri: file_uri@,
                mime_type: mime_type@,
            },
            GeminiPart::FunctionCall { name, args_json } => GeminiPartV::FunctionCall {
                name: name@,
                args_json: args_json@,
            },
            GeminiPart::FunctionResponse { name, response } => GeminiPartV::FunctionResponse {
                name: name@,
                response: response@,
            },
        }
    }
}

/// One entry of the `contents` array: a role and its parts.
#[derive(Debug, Clone, PartialEq, Eq)]
pub struct GeminiContent {
    pub role: String,
    pub parts: Vec<GeminiPart>,
}

/// Spec-level image of a `GeminiContent`.
pub struct GeminiContentV {
    pub role: Seq<char>,
    pub parts: Seq<GeminiPartV>,
}

impl View for GeminiContent {
    type V = GeminiContentV;

    open spec fn view(&self) -> GeminiContentV {
        GeminiContentV { role: self.role@, parts: self.parts@.map(|i: int, p: GeminiPart| p@) }
    }
}

/// One function declaration handed to the vendor; fields the internal
/// tool did not carry stay absent.
#[derive(Debug, Clone, PartialEq, Eq)]
pub struct GeminiFunctionDecl {
    pub name: Option<String>,
    pub description: Option<String>,
    pub parameters_json: Option<String>,
}

/// Spec-level image of a `GeminiFunctionDecl`.
pub struct GeminiFunctionDeclV {
    pub name: Option<Seq<char>>,
    pub description: Option<Seq<char>>,
    pub parameters_json: Option<Seq<char>>,
}

impl View for GeminiFunctionDecl {
    type V = GeminiFunctionDeclV;

    open spec fn view(&self) -> GeminiFunctionDeclV {
        GeminiFunctionDeclV {
            name: opt_str_view(self.name),
            description: opt_str_view(self.description),
            parameters_json: opt_str_view(self.parameters_json),
        }
    }
}

/// The request body: the contents array, the system-level instruction
/// field (absent when instructions are empty), and the function
/// declarations (empty when no tool survives translation).
#[derive(Debug, Clone, PartialEq, Eq)]
pub struct GeminiBody {
    pub contents: Vec<GeminiContent>,
    pub system_instruction: Option<String>,
    pub tools: Vec<GeminiFunctionDecl>,
}

/// Spec-level image of a `GeminiBody`.
pub struct GeminiBodyV {
    pub contents: Seq<GeminiContentV>,
    pub system_instruction: Option<Seq<char>>,
    pub tools: Seq<GeminiFunctionDeclV>,
}

impl View for GeminiBody {
    type V = GeminiBodyV;

    open spec fn view(&self) -> GeminiBodyV {
        GeminiBodyV {
            contents: self.contents@.map(|i: int, c: GeminiContent| c@),
            system_instruction: opt_str_view(self.system_instruction),
            tools: self.tools@.map(|i: int, t: GeminiFunctionDecl| t@),
        }
    }
}

/// Assembled request body plus headers for one Gemini call.
#[derive(Debug, Clone, PartialEq, Eq)]
pub struct GeminiRequest {
    pub body: GeminiBody,
    pub headers: Vec<(String, String)>,
    /// Model name to use in the URL path.
    pub model: String,
}

/// The vendor role for an internal role: `assistant` maps to `model`;
/// `user`, `system` (whose text goes to the system-level field, not the
/// contents), `tool` and every unrecognized role map to `user`.
pub open spec fn spec_gemini_role(role: Seq<char>) -> Seq<char> {
    if role == "assistant"@ {
        "model"@
    } else {
        "user"@
    }
}

/// Maps an internal role to the Gemini role.
pub fn map_role_to_gemini(role: &str) -> (r: &'static str)
    ensures
        r@ == spec_gemini_role(role@),
{
    if str_eq(role, "assistant") {
        "model"
    } else {
        "user"
    }
}

/// Role mapping is total: every internal role maps to a defined vendor
/// role, and every role other than `assistant` — recognized or not —
/// deterministically maps to `user`.
pub proof fn lemma_role_mapping_total(role: Seq<char>)
    ensures
        spec_gemini_role(role) == "model"@ || spec_gemini_role(role) == "user"@,
        role != "assistant"@ ==> spec_gemini_role(role) == "user"@,
{
}

/// The first position of `c` in `s` at or after `from`, if any.
pub open spec fn spec_find_char(s: Seq<char>, c: char, from: int) -> Option<int>
    decreases s.len() - from,
{
    if from < 0 || from >= s.len() {
        None
    } else if s[from] == c {
        Some(from)
    } else {
        spec_find_char(s, c, from + 1)
    }
}

/// What a found position means: the character stands there and nowhere
/// earlier (at or after `from`).
pub proof fn lemma_find_char_first(s: Seq<char>, c: char, from: int)
    requires
        0 <= from <= s.len(),
    ensures
        match spec_find_char(s, c, from) {
            Some(i) => from <= i < s.len() && s[i] == c && (forall|j: int|
                from <= j < i ==> s[j] != c),
            None => forall|j: int| from <= j < s.len() ==> s[j] != c,
        },
    decreases s.len() - from,
{
    if from < s.len() && s[from] != c {
        lemma_find_char_first(s, c, from + 1);
    }
}

/// Finds the first position of `c` in `s` at or after `from`.
fn find_char(s: &str, c: char, from: usize) -> (r: Option<usize>)
    requires
        from <= s@.len(),
    ensures
        (match r {
            Some(i) => Some(i as int),
            None => None::<int>,
        }) == spec_find_char(s@, c, from as int),
{
    let n = s.unicode_len();
    let mut i: usize = from;
    while i < n
        invariant
            from <= i <= n,
            n == s@.len(),
            spec_find_char(s@, c, from as int) == spec_find_char(s@, c, i as int),
        decreases n - i,
    {
        if s.get_char(i) == c {
            return Some(i);
        }
        i = i + 1;
    }
    None
}

/// Whether a URL is a data URL.
pub open spec fn spec_is_data_url(u: Seq<char>) -> bool {
    u.len() >= 5 && u.subrange(0, 5) == "data:"@
}

/// The Gemini part for an image URL. A data URL is split at the first
/// `,` into a metadata prefix and the payload, and the MIME type is the
/// metadata up to the first `;`; a data URL without a `,` is dropped. A
/// remote URL becomes a remote file reference with a default MIME type.
pub open spec fn spec_image_part(u: Seq<char>) -> Option<GeminiPartV> {
    if spec_is_data_url(u) {
        match spec_find_char(u, ',', 0) {
            Some(comma) => {
                let metadata = u.subrange(5, comma);
                let data = u.subrange(comma + 1, u.len() as int);
                let mime_type = match spec_find_char(metadata, ';', 0) {
                    Some(semi) => metadata.subrange(0, semi),
                    None => metadata,
                };
                Some(GeminiPartV::InlineData { mime_type, data })
            },
            None => None,
        }
    } else {
        Some(GeminiPartV::FileData { file_uri: u, mime_type: "image/jpeg"@ })
    }
}

/// Builds the Gemini part for one image URL.
fn image_part(image_url: &String) -> (r: Option<GeminiPart>)
    ensures
        (match r {
            Some(p) => Some(p@),
            None => None::<GeminiPartV>,
        }) == spec_image_part(image_url@),
{
    let s = image_url.as_str();
    let n = s.unicode_len();
    let is_data = n >= 5 && str_eq(s.substring_char(0, 5), "data:");
    if is_data {
        match find_char(s, ',', 0) {
            Some(comma) => {
                proof {
                    reveal_strlit("data:");
                    lemma_find_char_first(s@, ',', 0);
                    assert(s@[0] != ',' && s@[1] != ',' && s@[2] != ',' && s@[3] != ','
                        && s@[4] != ',') by {
                        assert(s@.subrange(0, 5) == "data:"@);
                        assert(s@[0] == "data:"@[0] && s@[1] == "data:"@[1] && s@[2]
                            == "data:"@[2] && s@[3] == "data:"@[3] && s@[4] == "data:"@[4]);
                    }
                    assert(comma >= 5);
                }
                let metadata = s.substring_char(5, comma);
                let data = s.substring_char(comma + 1, n).to_owned();
                let mime_type = match find_char(metadata, ';', 0) {
                    Some(semi) => {
                        proof {
                            lemma_find_char_first(metadata@, ';', 0);
                        }
                        metadata.substring_char(0, semi).to_owned()
                    },
                    None => metadata.to_owned(),
                };
                Some(GeminiPart::InlineData { mime_type, data })
            },
            None => None,
        }
    } else {
        Some(
            GeminiPart::FileData {
                file_uri: image_url.clone(),
                mime_type: String::from_str("image/jpeg"),
            },
        )
    }
}

/// The Gemini part for one content item: empty text parts are
/// suppressed, image parts go through the data-URL split.
pub open spec fn spec_content_part(item: ContentItemV) -> Option<GeminiPartV> {
    match item {
        ContentItemV::InputText { text } => if text.len() > 0 {
            Some(GeminiPartV::Text { text })
        } else {
            None
        },
        ContentItemV::OutputText { text } => if text.len() > 0 {
            Some(GeminiPartV::Text { text })
        } else {
            None
        },
        ContentItemV::InputImage { image_url } => spec_image_part(image_url),
    }
}

/// The Gemini parts of the first `k` content items.
pub open spec fn spec_content_parts_upto(items: Seq<ContentItemV>, k: int) -> Seq<GeminiPartV>
    decreases k,
{
    if k <= 0 {
        Seq::empty()
    } else {
        let prev = spec_content_parts_upto(items, k - 1);
        match spec_content_part(items[k - 1]) {
            Some(p) => prev.push(p),
            None => prev,
        }
    }
}

/// The Gemini parts of a message's content.
pub open spec fn spec_content_parts(items: Seq<ContentItemV>) -> Seq<GeminiPartV> {
    spec_content_parts_upto(items, items.len() as int)
}

/// Converts content items to Gemini parts.
pub fn content_items_to_parts(content: &Vec<ContentItem>) -> (parts: Vec<GeminiPart>)
    ensures
        parts@.map(|i: int, p: GeminiPart| p@) == spec_content_parts(
            content@.map(|i: int, c: ContentItem| c@),
        ),
{
    let ghost items_v = content@.map(|i: int, c: ContentItem| c@);
    let mut parts: Vec<GeminiPart> = Vec::new();
    proof {
        assert(parts@.map(|i: int, p: GeminiPart| p@) =~= Seq::<GeminiPartV>::empty());
    }
    let mut k: usize = 0;
    while k < content.len()
        invariant
            k <= content@.len(),
            items_v == content@.map(|i: int, c: ContentItem| c@),
            items_v.len() == content@.len(),
            parts@.map(|i: int, p: GeminiPart| p@) == spec_content_parts_upto(items_v, k as int),
        decreases content@.len() - k,
    {
        proof {
            assert(items_v[k as int] == content@[k as int]@);
        }
        let ghost pre = parts@.map(|i: int, p: GeminiPart| p@);
        match &content[k] {
            ContentItem::InputText { text } => {
                if !text.as_str().is_empty() {
                    parts.push(GeminiPart::Text { text: text.clone() });
                    proof {
                        assert(parts@.map(|i: int, p: GeminiPart| p@) =~= pre.push(
                            GeminiPartV::Text { text: text@ },
                        ));
                    }
                }
            },
            ContentItem::OutputText { text } => {
                if !text.as_str().is_empty() {
                    parts.push(GeminiPart::Text { text: text.clone() });
                    proof {
                        assert(parts@.map(|i: int, p: GeminiPart| p@) =~= pre.push(
                            GeminiPartV::Text { text: text@ },
                        ));
                    }
                }
            },
            ContentItem::InputImage { image_url } => {
                match image_part(image_url) {
                    Some(p) => {
                        let ghost pv = p@;
                        parts.push(p);
                        proof {
                            assert(parts@.map(|i: int, p2: GeminiPart| p2@) =~= pre.push(pv));
                        }
                    },
                    None => {},
                }
            },
        }
        k = k + 1;
    }
    parts
}

/// The function name recorded for a call id: the name of the last
/// `FunctionCall` carrying that id, or the sentinel when no call in the
/// input carries it.
pub open spec fn spec_call_name(items: Seq<ResponseItemV>, call_id: Seq<char>) -> Seq<char>
    decreases items.len(),
{
    if items.len() == 0 {
        "unknown"@
    } else {
        match items.last() {
            ResponseItemV::FunctionCall { name, call_id: cid, .. } => if cid == call_id {
                name
            } else {
                spec_call_name(items.drop_last(), call_id)
            },
            _ => spec_call_name(items.drop_last(), call_id),
        }
    }
}

/// Recovers the function name for a call id by scanning the input.
fn resolve_call_name(input: &Vec<ResponseItem>, call_id: &str) -> (name: String)
    ensures
        name@ == spec_call_name(items_view(input@), call_id@),
{
    let ghost all = items_view(input@);
    let mut i: usize = input.len();
    proof {
        assert(all.take(i as int) =~= all);
    }
    while i > 0
        invariant
            i <= input@.len(),
            all == items_view(input@),
            all.len() == input@.len(),
            spec_call_name(all, call_id@) == spec_call_name(all.take(i as int), call_id@),
        decreases i,
    {
        proof {
            assert(all[i - 1] == input@[i - 1]@);
            assert(all.take(i as int).last() == all[i - 1]);
            assert(all.take(i as int).drop_last() =~= all.take(i - 1));
        }
        match &input[i - 1] {
            ResponseItem::FunctionCall { name, call_id: cid, .. } => {
                if str_eq(cid.as_str(), call_id) {
                    return name.clone();
                }
            },
            _ => {},
        }
        i = i - 1;
    }
    proof {
        assert(all.take(0) =~= Seq::<ResponseItemV>::empty());
    }
    String::from_str("unknown")
}

/// Whether an item is a function call carrying this call id.
pub open spec fn spec_is_call_with_id(item: ResponseItemV, cid: Seq<char>) -> bool {
    match item {
        ResponseItemV::FunctionCall { call_id, .. } => call_id == cid,
        _ => false,
    }
}

/// When exactly one function call in the input carries a call id, the
/// recorded name for that id is that call's name.
pub proof fn lemma_call_name_unique(
    items: Seq<ResponseItemV>,
    i: int,
    cid: Seq<char>,
    name: Seq<char>,
)
    requires
        0 <= i < items.len(),
        spec_is_call_with_id(items[i], cid),
        items[i] matches ResponseItemV::FunctionCall { name: n, .. } && n == name,
        forall|k: int|
            0 <= k < items.len() && k != i ==> !spec_is_call_with_id(#[trigger] items[k], cid),
    ensures
        spec_call_name(items, cid) == name,
    decreases items.len(),
{
    if i == items.len() - 1 {
    } else {
        assert(!spec_is_call_with_id(items.last(), cid));
        assert(items.drop_last()[i] == items[i]);
        assert(forall|k: int|
            0 <= k < items.drop_last().len() && k != i ==> !spec_is_call_with_id(
                #[trigger] items.drop_last()[k],
                cid,
            ));
        lemma_call_name_unique(items.drop_last(), i, cid, name);
    }
}

/// Round-trip of a call id: a `FunctionCall` whose call id is unique in
/// the input, followed later by a `FunctionCallOutput` with the same
/// call id, resolves to that call's function name in the built request.
pub proof fn lemma_call_id_round_trip(
    items: Seq<ResponseItemV>,
    i: int,
    j: int,
    name: Seq<char>,
    cid: Seq<char>,
    output: FunctionCallOutputPayloadV,
)
    requires
        0 <= i < j < items.len(),
        spec_is_call_with_id(items[i], cid),
        items[i] matches ResponseItemV::FunctionCall { name: n, .. } && n == name,
        forall|k: int|
            0 <= k < items.len() && k != i ==> !spec_is_call_with_id(#[trigger] items[k], cid),
        items[j] == (ResponseItemV::FunctionCallOutput { call_id: cid, output }),
    ensures
        spec_item_content(items, items[j]) == Some(
            GeminiContentV {
                role: "user"@,
                parts: seq![
                    GeminiPartV::FunctionResponse {
                        name,
                        response: spec_output_response(output),
                    },
                ],
            },
        ),
{
    lemma_call_name_unique(items, i, cid, name);
}

/// The arguments embedded for a function call: the original text when
/// it is valid JSON, an empty object otherwise — a malformed argument
/// string never fails the build.
pub open spec fn spec_args_or_empty(args: Seq<char>) -> Seq<char> {
    if json_text_valid(args) {
        args
    } else {
        "{}"@
    }
}

/// The text parts kept from a structured function result: text is kept,
/// images are dropped.
pub open spec fn spec_output_texts_upto(
    items: Seq<FunctionCallOutputContentItemV>,
    k: int,
) -> Seq<Seq<char>>
    decreases k,
{
    if k <= 0 {
        Seq::empty()
    } else {
        let prev = spec_output_texts_upto(items, k - 1);
        match items[k - 1] {
            FunctionCallOutputContentItemV::InputText { text } => prev.push(text),
            FunctionCallOutputContentItemV::InputImage { .. } => prev,
        }
    }
}

/// The vendor shape of a function result: multi-part outputs keep only
/// their text parts; a single-string output is embedded directly.
pub open spec fn spec_output_response(out: FunctionCallOutputPayloadV) -> GeminiFunctionResponseV {
    match out.content_items {
        Some(items) => GeminiFunctionResponseV::Parts {
            parts: spec_output_texts_upto(items, items.len() as int),
        },
        None => GeminiFunctionResponseV::Output { output: out.content },
    }
}

/// Builds the vendor shape of a function result.
fn output_response(output: &FunctionCallOutputPayload) -> (r: GeminiFunctionResponse)
    ensures
        r@ == spec_output_response(output@),
{
    match &output.content_items {
        Some(items) => {
            let ghost items_v = items@.map(
                |i: int, it: FunctionCallOutputContentItem| it@,
            );
            let mut parts: Vec<GeminiResponsePart> = Vec::new();
            proof {
                assert(parts@.map(|i: int, p: GeminiResponsePart| p.text@) =~= Seq::<
                    Seq<char>,
                >::empty());
            }
            let mut k: usize = 0;
            while k < items.len()
                invariant
                    k <= items@.len(),
                    items_v == items@.map(|i: int, it: FunctionCallOutputContentItem| it@),
                    items_v.len() == items@.len(),
                    parts@.map(|i: int, p: GeminiResponsePart| p.text@)
                        == spec_output_texts_upto(items_v, k as int),
                decreases items@.len() - k,
            {
                proof {
                    assert(items_v[k as int] == items@[k as int]@);
                }
                let ghost pre = parts@.map(|i: int, p: GeminiResponsePart| p.text@);
                match &items[k] {
                    FunctionCallOutputContentItem::InputText { text } => {
                        parts.push(GeminiResponsePart { text: text.clone() });
                        proof {
                            assert(parts@.map(|i: int, p: GeminiResponsePart| p.text@) =~= pre.push(
                                text@,
                            ));
                        }
                    },
                    FunctionCallOutputContentItem::InputImage { .. } => {},
                }
                k = k + 1;
            }
            GeminiFunctionResponse::Parts { parts }
        },
        None => GeminiFunctionResponse::Output { output: output.content.clone() },
    }
}

/// The contents entry for one conversation item, if the vendor can
/// represent it: messages keep their mapped role and translated parts
/// (and are dropped when no part survives); a function call becomes the
/// model-emits-a-call shape; a function result becomes the tool-result
/// shape under the recovered function name; every other item is
/// skipped and never aborts the build.
pub open spec fn spec_item_content(all: Seq<ResponseItemV>, item: ResponseItemV) -> Option<
    GeminiContentV,
> {
    match item {
        ResponseItemV::Message { role, content, .. } => {
            let parts = spec_content_parts(content);
            if parts.len() > 0 {
                Some(GeminiContentV { role: spec_gemini_role(role), parts })
            } else {
                None
            }
        },
        ResponseItemV::FunctionCall { name, arguments, .. } => Some(
            GeminiContentV {
                role: "model"@,
                parts: seq![
                    GeminiPartV::FunctionCall {
                        name,
                        args_json: spec_args_or_empty(arguments),
                    },
                ],
            },
        ),
        ResponseItemV::FunctionCallOutput { call_id, output } => Some(
            GeminiContentV {
                role: "user"@,
                parts: seq![
                    GeminiPartV::FunctionResponse {
                        name: spec_call_name(all, call_id),
                        response: spec_output_response(output),
                    },
                ],
            },
        ),
        _ => None,
    }
}

/// The contents entries of the first `k` conversation items.
pub open spec fn spec_contents_upto(all: Seq<ResponseItemV>, k: int) -> Seq<GeminiContentV>
    decreases k,
{
    if k <= 0 {
        Seq::empty()
    } else {
        let prev = spec_contents_upto(all, k - 1);
        match spec_item_content(all, all[k - 1]) {
            Some(c) => prev.push(c),
            None => prev,
        }
    }
}

/// The contents array built from a whole input sequence.
pub open spec fn spec_contents(all: Seq<ResponseItemV>) -> Seq<GeminiContentV> {
    spec_contents_upto(all, all.len() as int)
}

/// The function declaration for one tool: only schema-carrying tools
/// survive, with whatever fields they carry.
pub open spec fn spec_tool_decl(t: ToolSpecV) -> Option<GeminiFunctionDeclV> {
    match t {
        ToolSpecV::Function { name, description, parameters_json } => Some(
            GeminiFunctionDeclV { name, description, parameters_json },
        ),
        ToolSpecV::Other => None,
    }
}

/// The function declarations of the first `k` tools.
pub open spec fn spec_tool_decls_upto(tools: Seq<ToolSpecV>, k: int) -> Seq<GeminiFunctionDeclV>
    decreases k,
{
    if k <= 0 {
        Seq::empty()
    } else {
        let prev = spec_tool_decls_upto(tools, k - 1);
        match spec_tool_decl(tools[k - 1]) {
            Some(d) => prev.push(d),
            None => prev,
        }
    }
}

/// The function declarations of a whole tool list.
pub open spec fn spec_tool_decls(tools: Seq<ToolSpecV>) -> Seq<GeminiFunctionDeclV> {
    spec_tool_decls_upto(tools, tools.len() as int)
}

/// The whole request body built from one prompt.
pub open spec fn spec_build_body(
    instructions: Seq<char>,
    input: Seq<ResponseItemV>,
    tools: Seq<ToolSpecV>,
) -> GeminiBodyV {
    GeminiBodyV {
        contents: spec_contents(input),
        system_instruction: if instructions.len() > 0 {
            Some(instructions)
        } else {
            None
        },
        tools: spec_tool_decls(tools),
    }
}

/// The conversation headers of one call.
pub open spec fn spec_conversation_headers(id: Option<Seq<char>>) -> Seq<(Seq<char>, Seq<char>)> {
    match id {
        Some(i) => seq![("conversation_id"@, i)],
        None => Seq::empty(),
    }
}

/// Builds one Gemini request from a prompt's pieces.
pub struct GeminiRequestBuilder<'a> {
    model: &'a str,
    instructions: &'a str,
    input: &'a Vec<ResponseItem>,
    tools: &'a Vec<ToolSpec>,
    conversation_id: Option<String>,
    session_source: Option<SessionSource>,
}

impl<'a> GeminiRequestBuilder<'a> {
    /// The model name this builder was given.
    pub closed spec fn spec_model(&self) -> Seq<char> {
        self.model@
    }

    /// The instructions this builder was given.
    pub closed spec fn spec_instructions(&self) -> Seq<char> {
        self.instructions@
    }

    /// The input items this builder was given.
    pub closed spec fn spec_input(&self) -> Seq<ResponseItemV> {
        items_view(self.input@)
    }

    /// The tools this builder was given.
    pub closed spec fn spec_tools(&self) -> Seq<ToolSpecV> {
        tools_view(self.tools@)
    }

    /// The conversation id this builder carries.
    pub closed spec fn spec_conversation_id(&self) -> Option<Seq<char>> {
        opt_str_view(self.conversation_id)
    }

    /// Starts a builder with no conversation metadata.
    pub fn new(
        model: &'a str,
        instructions: &'a str,
        input: &'a Vec<ResponseItem>,
        tools: &'a Vec<ToolSpec>,
    ) -> (r: Self)
        ensures
            r.spec_model() == model@,
            r.spec_instructions() == instructions@,
            r.spec_input() == items_view(input@),
            r.spec_tools() == tools_view(tools@),
            r.spec_conversation_id() is None,
    {
        GeminiRequestBuilder {
            model,
            instructions,
            input,
            tools,
            conversation_id: None,
            session_source: None,
        }
    }

    /// Sets the conversation id carried in the request headers.
    pub fn conversation_id(self, id: Option<String>) -> (r: Self)
        ensures
            r.spec_model() == self.spec_model(),
            r.spec_instructions() == self.spec_instructions(),
            r.spec_input() == self.spec_input(),
            r.spec_tools() == self.spec_tools(),
            r.spec_conversation_id() == opt_str_view(id),
    {
        GeminiRequestBuilder { conversation_id: id, ..self }
    }

    /// Sets where the session was started from; carried, never read.
    pub fn session_source(self, source: Option<SessionSource>) -> (r: Self)
        ensures
            r.spec_model() == self.spec_model(),
            r.spec_instructions() == self.spec_instructions(),
            r.spec_input() == self.spec_input(),
            r.spec_tools() == self.spec_tools(),
            r.spec_conversation_id() == self.spec_conversation_id(),
    {
        GeminiRequestBuilder { session_source: source, ..self }
    }

    /// Builds the request. The build never fails: items and tools the
    /// vendor cannot represent are skipped; non-empty instructions
    /// populate the system-level field verbatim.
    pub fn build(self, provider: &Provider) -> (r: Result<GeminiRequest, ApiError>)
        ensures
            r is Ok,
            r matches Ok(req) ==> {
                &&& req.body@ == spec_build_body(
                    self.spec_instructions(),
                    self.spec_input(),
                    self.spec_tools(),
                )
                &&& req.body@.system_instruction == (if self.spec_instructions().len() > 0 {
                    Some(self.spec_instructions())
                } else {
                    None::<Seq<char>>
                })
                &&& pairs_view(req.headers@) == spec_conversation_headers(
                    self.spec_conversation_id(),
                )
                &&& req.model@ == self.spec_model()
            },
    {
        let ghost all = items_view(self.input@);
        let mut contents: Vec<GeminiContent> = Vec::new();
        proof {
            assert(contents@.map(|i: int, c: GeminiContent| c@) =~= Seq::<
                GeminiContentV,
            >::empty());
        }
        let mut k: usize = 0;
        while k < self.input.len()
            invariant
                k <= self.input@.len(),
                all == items_view(self.input@),
                all.len() == self.input@.len(),
                contents@.map(|i: int, c: GeminiContent| c@) == spec_contents_upto(all, k as int),
            decreases self.input@.len() - k,
        {
            proof {
                assert(all[k as int] == self.input@[k as int]@);
            }
            let ghost pre = contents@.map(|i: int, c: GeminiContent| c@);
            match &self.input[k] {
                ResponseItem::Message { role, content, .. } => {
                    let parts = content_items_to_parts(content);
                    if parts.len() > 0 {
                        let gemini_role = map_role_to_gemini(role.as_str()).to_owned();
                        let entry = GeminiContent { role: gemini_role, parts };
                        let ghost ev = entry@;
                        contents.push(entry);
                        proof {
                            assert(contents@.map(|i: int, c: GeminiContent| c@) =~= pre.push(ev));
                            assert(spec_content_parts(
                                self.input@[k as int]->Message_content@.map(
                                    |i: int, c: ContentItem| c@,
                                ),
                            ).len() > 0);
                        }
                    } else {
                        proof {
                            assert(spec_content_parts(
                                self.input@[k as int]->Message_content@.map(
                                    |i: int, c: ContentItem| c@,
                                ),
                            ).len() == 0);
                        }
                    }
                },
                ResponseItem::FunctionCall { name, arguments, .. } => {
                    let args_json = if is_valid_json(arguments.as_str()) {
                        arguments.clone()
                    } else {
                        String::from_str("{}")
                    };
                    let mut parts: Vec<GeminiPart> = Vec::new();
                    parts.push(GeminiPart::FunctionCall { name: name.clone(), args_json });
                    let entry = GeminiContent { role: String::from_str("model"), parts };
                    let ghost ev = entry@;
                    contents.push(entry);
                    proof {
                        assert(ev.parts =~= spec_item_content(all, all[k as int])->0.parts);
                        assert(contents@.map(|i: int, c: GeminiContent| c@) =~= pre.push(ev));
                    }
                },
                ResponseItem::FunctionCallOutput { call_id, output } => {
                    let function_name = resolve_call_name(self.input, call_id.as_str());
                    let response = output_response(output);
                    let mut parts: Vec<GeminiPart> = Vec::new();
                    parts.push(GeminiPart::FunctionResponse { name: function_name, response });
                    let entry = GeminiContent { role: String::from_str("user"), parts };
                    let ghost ev = entry@;
                    contents.push(entry);
                    proof {
                        assert(ev.parts =~= spec_item_content(all, all[k as int])->0.parts);
                        assert(contents@.map(|i: int, c: GeminiContent| c@) =~= pre.push(ev));
                    }
                },
                _ => {},
            }
            k = k + 1;
        }
        let system_instruction = if !self.instructions.is_empty() {
            Some(self.instructions.to_owned())
        } else {
            None
        };
        let mut tools: Vec<GeminiFunctionDecl> = Vec::new();
        proof {
            assert(tools@.map(|i: int, t: GeminiFunctionDecl| t@) =~= Seq::<
                GeminiFunctionDeclV,
            >::empty());
        }
        let ghost tools_v = tools_view(self.tools@);
        let mut j: usize = 0;
        while j < self.tools.len()
            invariant
                j <= self.tools@.len(),
                tools_v == tools_view(self.tools@),
                tools_v.len() == self.tools@.len(),
                tools@.map(|i: int, t: GeminiFunctionDecl| t@) == spec_tool_decls_upto(
                    tools_v,
                    j as int,
                ),
            decreases self.tools@.len() - j,
        {
            proof {
                assert(tools_v[j as int] == self.tools@[j as int]@);
            }
            let ghost pre = tools@.map(|i: int, t: GeminiFunctionDecl| t@);
            match &self.tools[j] {
                ToolSpec::Function { name, description, parameters_json } => {
                    let decl = GeminiFunctionDecl {
                        name: match name {
                            Some(n) => Some(n.clone()),
                            None => None,
                        },
                        description: match description {
                            Some(d) => Some(d.clone()),
                            None => None,
                        },
                        parameters_json: match parameters_json {
                            Some(p) => Some(p.clone()),
                            None => None,
                        },
                    };
                    let ghost dv = decl@;
                    tools.push(decl);
                    proof {
                        assert(tools@.map(|i: int, t: GeminiFunctionDecl| t@) =~= pre.push(dv));
                    }
                },
                ToolSpec::Other => {},
            }
            j = j + 1;
        }
        let mut headers: Vec<(String, String)> = Vec::new();
        match &self.conversation_id {
            Some(id) => {
                headers.push((String::from_str("conversation_id"), id.clone()));
                proof {
                    assert(pairs_view(headers@) =~= seq![("conversation_id"@, id@)]);
                }
            },
            None => {
                proof {
                    assert(pairs_view(headers@) =~= Seq::<(Seq<char>, Seq<char>)>::empty());
                }
            },
        }
        let body = GeminiBody { contents, system_instruction, tools };
        Ok(GeminiRequest { body, headers, model: self.model.to_owned() })
    }
}

} // verus!
