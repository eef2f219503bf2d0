//! Endpoint configuration for the Gemini wire protocol and the
//! batch-replay event emitter.
//!
//! The Gemini endpoint puts the model in the URL path. Because many
//! gateways do not deliver this vendor's responses incrementally, a call
//! is made in batch mode and the full answer is replayed through the
//! same event contract as a true stream: deltas per text part, one
//! aggregated message-done event when any text was produced, then
//! exactly one `Completed` event. The transport call itself, the
//! authentication capability and the producer task live outside the
//! library; the URL, the final header list and every emitted event are
//! computed here.

use vstd::prelude::*;
use vstd::string::StringExecFns;
use crate::model::ApiError;
use crate::model::ApiErrorV;
use crate::model::ContentItem;
use crate::model::ContentItemV;
use crate::model::ResponseEvent;
use crate::model::ResponseEventV;
use crate::model::ResponseItem;
use crate::model::ResponseItemV;
use crate::model::StreamOutput;
use crate::model::StreamOutputV;
use crate::model::pairs_view;
use crate::model::strs_view;
use crate::model::outputs_view;
use crate::retry::RetryConfig;
use crate::sse::GeminiCandidateV;
use crate::sse::GeminiChunk;
use crate::sse::GeminiChunkPartV;
use crate::sse::GeminiChunkV;
use crate::sse::GeminiUsage;
use crate::sse::spec_function_call_item;
use crate::sse::spec_next_counter;
use crate::sse::spec_usage_tokens;
use crate::sse::usage_tokens;

verus! {

/// The wire protocol an endpoint speaks.
#[derive(Debug, Clone, Copy, PartialEq, Eq)]
pub enum WireApi {
    Gemini,
}

/// Configuration of one endpoint: immutable, shared read-only across
/// concurrent calls.
#[derive(Debug, Clone, PartialEq, Eq)]
pub struct Provider {
    pub name: String,
    pub base_url: String,
    pub query_params: Option<Vec<(String, String)>>,
    pub wire: WireApi,
    pub model_name: Option<String>,
    pub headers: Vec<(String, String)>,
    pub retry: RetryConfig,
    pub stream_idle_timeout_ms: u64,
}

impl Provider {
    /// The URL of the generate-content endpoint for a model: the base
    /// URL, `/models/`, the model name and the action suffix, with no
    /// other path segments inserted however many segments the base URL
    /// itself contains.
    pub fn gemini_url_for_model(&self, model: &str) -> (url: String)
        ensures
            url@ == self.base_url@ + "/models/"@ + model@ + ":generateContent"@,
    {
        let mut url = self.base_url.clone();
        url.append("/models/");
        url.append(model);
        url.append(":generateContent");
        url
    }

    /// The final header list of one request: the provider's default
    /// headers, then the per-call extra headers, then the forced JSON
    /// content type. Later entries override earlier ones when the
    /// transport applies them in order.
    pub fn merged_request_headers(&self, extra: &Vec<(String, String)>) -> (h: Vec<
        (String, String),
    >)
        ensures
            pairs_view(h@) == pairs_view(self.headers@) + pairs_view(extra@) + seq![
                ("content-type"@, "application/json"@),
            ],
    {
        let mut h: Vec<(String, String)> = Vec::new();
        proof {
            assert(pairs_view(h@) =~= Seq::<(Seq<char>, Seq<char>)>::empty());
        }
        let mut i: usize = 0;
        while i < self.headers.len()
            invariant
                i <= self.headers@.len(),
                pairs_view(h@) == pairs_view(self.headers@).take(i as int),
            decreases self.headers@.len() - i,
        {
            let ghost pre = pairs_view(h@);
            let name = self.headers[i].0.clone();
            let value = self.headers[i].1.clone();
            h.push((name, value));
            proof {
                assert(pairs_view(h@) =~= pre.push(
                    (self.headers@[i as int].0@, self.headers@[i as int].1@),
                ));
                assert(pairs_view(self.headers@).take(i + 1 as int) =~= pairs_view(
                    self.headers@,
                ).take(i as int).push((self.headers@[i as int].0@, self.headers@[i as int].1@)));
            }
            i = i + 1;
        }
        proof {
            assert(pairs_view(self.headers@).take(self.headers@.len() as int) =~= pairs_view(
                self.headers@,
            ));
        }
        let mut j: usize = 0;
        while j < extra.len()
            invariant
                j <= extra@.len(),
                pairs_view(h@) == pairs_view(self.headers@) + pairs_view(extra@).take(j as int),
            decreases extra@.len() - j,
        {
            let ghost pre = pairs_view(h@);
            let name = extra[j].0.clone();
            let value = extra[j].1.clone();
            h.push((name, value));
            proof {
                assert(pairs_view(h@) =~= pre.push(
                    (extra@[j as int].0@, extra@[j as int].1@),
                ));
                assert(pairs_view(extra@).take(j + 1 as int) =~= pairs_view(extra@).take(
                    j as int,
                ).push((extra@[j as int].0@, extra@[j as int].1@)));
            }
            j = j + 1;
        }
        proof {
            assert(pairs_view(extra@).take(extra@.len() as int) =~= pairs_view(extra@));
        }
        let ghost pre = pairs_view(h@);
        h.push((String::from_str("content-type"), String::from_str("application/json")));
        proof {
            assert(pairs_view(h@) =~= pre.push(("content-type"@, "application/json"@)));
            assert(pre.push(("content-type"@, "application/json"@)) =~= pre + seq![
                ("content-type"@, "application/json"@),
            ]);
        }
        h
    }
}

/// Concatenation of the first `k` collected text fragments.
pub open spec fn spec_concat_texts_upto(texts: Seq<Seq<char>>, k: int) -> Seq<char>
    decreases k,
{
    if k <= 0 {
        Seq::empty()
    } else {
        spec_concat_texts_upto(texts, k - 1) + texts[k - 1]
    }
}

/// Concatenation of all collected text fragments.
pub open spec fn spec_concat_texts(texts: Seq<Seq<char>>) -> Seq<char> {
    spec_concat_texts_upto(texts, texts.len() as int)
}

/// The aggregated assistant message of one batch candidate: one output
/// text holding the concatenation of its text parts.
pub open spec fn spec_batch_message(texts: Seq<Seq<char>>) -> ResponseItemV {
    ResponseItemV::Message {
        id: None,
        role: "assistant"@,
        content: seq![ContentItemV::OutputText { text: spec_concat_texts(texts) }],
    }
}

/// One part in batch replay: a non-empty text fragment is collected and
/// emitted as a delta; a function call is emitted as an atomic item.
pub open spec fn spec_batch_part(
    counter: u64,
    texts: Seq<Seq<char>>,
    part: GeminiChunkPartV,
) -> (u64, Seq<Seq<char>>, Seq<StreamOutputV>) {
    let (texts1, out1) = match part.text {
        Some(t) => if t.len() > 0 {
            (texts.push(t), seq![Ok(ResponseEventV::OutputTextDelta(t))])
        } else {
            (texts, Seq::<StreamOutputV>::empty())
        },
        None => (texts, Seq::<StreamOutputV>::empty()),
    };
    match part.function_call {
        Some(fc) => {
            let n = spec_next_counter(counter);
            (
                n,
                texts1,
                out1 + seq![Ok(ResponseEventV::OutputItemDone(spec_function_call_item(fc, n)))],
            )
        },
        None => (counter, texts1, out1),
    }
}

/// The first `k` parts of one batch candidate.
pub open spec fn spec_batch_parts_upto(
    counter: u64,
    parts: Seq<GeminiChunkPartV>,
    k: int,
) -> (u64, Seq<Seq<char>>, Seq<StreamOutputV>)
    decreases k,
{
    if k <= 0 {
        (counter, Seq::empty(), Seq::empty())
    } else {
        let (c1, t1, o1) = spec_batch_parts_upto(counter, parts, k - 1);
        let (c2, t2, o2) = spec_batch_part(c1, t1, parts[k - 1]);
        (c2, t2, o1 + o2)
    }
}

/// One batch candidate: deltas and atomic items for its parts, one
/// aggregated message-done event if any text was produced, then its
/// termination signal: a length-limit signal yields the context-window
/// error and stops the replay, a safety block yields a generic stream
/// failure and stops the replay, everything else is non-terminal.
pub open spec fn spec_batch_candidate(counter: u64, cand: GeminiCandidateV) -> (
    u64,
    Seq<StreamOutputV>,
    bool,
) {
    let (c1, texts, o1) = spec_batch_parts_upto(counter, cand.parts, cand.parts.len() as int);
    let o2 = if texts.len() > 0 {
        o1 + seq![Ok(ResponseEventV::OutputItemDone(spec_batch_message(texts)))]
    } else {
        o1
    };
    match cand.finish_reason {
        Some(r) => if r == "MAX_TOKENS"@ {
            (c1, o2 + seq![Err(ApiErrorV::ContextWindowExceeded)], true)
        } else if r == "SAFETY"@ {
            (
                c1,
                o2 + seq![
                    Err(ApiErrorV::Stream { message: "Response blocked by safety filters"@ }),
                ],
                true,
            )
        } else {
            (c1, o2, false)
        },
        None => (c1, o2, false),
    }
}

/// The first `k` candidates of one batch response; a terminal signal
/// stops the replay.
pub open spec fn spec_batch_candidates_upto(
    counter: u64,
    cands: Seq<GeminiCandidateV>,
    k: int,
) -> (u64, Seq<StreamOutputV>, bool)
    decreases k,
{
    if k <= 0 {
        (counter, Seq::empty(), false)
    } else {
        let (c1, o1, term1) = spec_batch_candidates_upto(counter, cands, k - 1);
        if term1 {
            (c1, o1, term1)
        } else {
            let (c2, o2, term2) = spec_batch_candidate(c1, cands[k - 1]);
            (c2, o1 + o2, term2)
        }
    }
}

/// The full batch replay of one response: per-candidate events, then —
/// unless a terminal signal stopped the replay — exactly one `Completed`
/// event carrying whatever usage metadata was present.
pub open spec fn spec_batch_events(resp: GeminiChunkV) -> Seq<StreamOutputV> {
    let (c, o, term) = spec_batch_candidates_upto(
        0,
        resp.candidates,
        resp.candidates.len() as int,
    );
    if term {
        o
    } else {
        o + seq![
            Ok(
                ResponseEventV::Completed {
                    response_id: Seq::empty(),
                    token_usage: match resp.usage_metadata {
                        Some(u) => Some(spec_usage_tokens(u)),
                        None => None,
                    },
                },
            ),
        ]
    }
}

/// Concatenates collected text fragments.
fn concat_texts(texts: &Vec<String>) -> (s: String)
    ensures
        s@ == spec_concat_texts(strs_view(texts@)),
{
    let mut s = String::new();
    let mut i: usize = 0;
    while i < texts.len()
        invariant
            i <= texts@.len(),
            s@ == spec_concat_texts_upto(strs_view(texts@), i as int),
        decreases texts@.len() - i,
    {
        s.append(texts[i].as_str());
        i = i + 1;
    }
    s
}

/// Replays one full batch response through the stream event contract.
pub fn batch_events(resp: &GeminiChunk) -> (out: Vec<StreamOutput>)
    ensures
        outputs_view(out@) == spec_batch_events(resp@),
{
    let mut out: Vec<StreamOutput> = Vec::new();
    proof {
        assert(outputs_view(out@) =~= Seq::<StreamOutputV>::empty());
    }
    let mut counter: u64 = 0;
    let mut terminal = false;
    let ghost cands_v = resp@.candidates;
    let mut ci: usize = 0;
    while ci < resp.candidates.len()
        invariant
            ci <= resp.candidates@.len(),
            cands_v == resp@.candidates,
            cands_v.len() == resp.candidates@.len(),
            (counter, outputs_view(out@), terminal) == spec_batch_candidates_upto(
                0,
                cands_v,
                ci as int,
            ),
        decreases resp.candidates@.len() - ci,
    {
        proof {
            assert(cands_v[ci as int] == resp.candidates@[ci as int]@);
        }
        if !terminal {
            let cand = &resp.candidates[ci];
            let ghost c_in = counter;
            let ghost pre = outputs_view(out@);
            let ghost parts_v = cand@.parts;
            let mut texts: Vec<String> = Vec::new();
            proof {
                assert(strs_view(texts@) =~= Seq::<Seq<char>>::empty());
            }
            let mut pi: usize = 0;
            while pi < cand.parts.len()
                invariant
                    pi <= cand.parts@.len(),
                    parts_v == cand@.parts,
                    parts_v.len() == cand.parts@.len(),
                    (counter, strs_view(texts@), outputs_view(out@)) == ({
                        let (c, t, o) = spec_batch_parts_upto(c_in, parts_v, pi as int);
                        (c, t, pre + o)
                    }),
                decreases cand.parts@.len() - pi,
            {
                proof {
                    assert(parts_v[pi as int] == cand.parts@[pi as int]@);
                }
                let part = &cand.parts[pi];
                match &part.text {
                    Some(t) => {
                        if !t.as_str().is_empty() {
                            let ghost texts_pre = strs_view(texts@);
                            let ghost out_pre = outputs_view(out@);
                            texts.push(t.clone());
                            out.push(Ok(ResponseEvent::OutputTextDelta(t.clone())));
                            proof {
                                assert(strs_view(texts@) =~= texts_pre.push(t@));
                                assert(outputs_view(out@) =~= out_pre.push(
                                    Ok(ResponseEventV::OutputTextDelta(t@)),
                                ));
                            }
                        }
                    },
                    None => {},
                }
                match &part.function_call {
                    Some(fc) => {
                        if counter < u64::MAX {
                            counter = counter + 1;
                        }
                        let mut call_id = String::from_str("gemini_call_");
                        let digits = crate::text::u64_to_decimal(counter);
                        call_id.append(digits.as_str());
                        let arguments = match &fc.args_json {
                            Some(a) => a.clone(),
                            None => String::from_str("{}"),
                        };
                        let thought_signature = match &fc.thought_signature {
                            Some(s) => Some(s.clone()),
                            None => None,
                        };
                        let item = ResponseItem::FunctionCall {
                            id: None,
                            name: fc.name.clone(),
                            arguments,
                            call_id,
                            thought_signature,
                        };
                        proof {
                            assert(item@ == spec_function_call_item(fc@, counter));
                        }
                        let ghost out_pre = outputs_view(out@);
                        out.push(Ok(ResponseEvent::OutputItemDone(item)));
                        proof {
                            assert(outputs_view(out@) =~= out_pre.push(
                                Ok(ResponseEventV::OutputItemDone(item@)),
                            ));
                        }
                    },
                    None => {},
                }
                pi = pi + 1;
            }
            if texts.len() > 0 {
                let full_text = concat_texts(&texts);
                let mut content: Vec<ContentItem> = Vec::new();
                content.push(ContentItem::OutputText { text: full_text });
                proof {
                    assert(content@.map(|j: int, c: ContentItem| c@) =~= seq![
                        ContentItemV::OutputText { text: spec_concat_texts(strs_view(texts@)) },
                    ]);
                }
                let message = ResponseItem::Message {
                    id: None,
                    role: String::from_str("assistant"),
                    content,
                };
                proof {
                    assert(message@ == spec_batch_message(strs_view(texts@)));
                }
                let ghost out_pre = outputs_view(out@);
                out.push(Ok(ResponseEvent::OutputItemDone(message)));
                proof {
                    assert(outputs_view(out@) =~= out_pre.push(
                        Ok(ResponseEventV::OutputItemDone(message@)),
                    ));
                }
            }
            match &cand.finish_reason {
                Some(reason) => {
                    if crate::text::str_eq(reason.as_str(), "MAX_TOKENS") {
                        let ghost out_pre = outputs_view(out@);
                        out.push(Err(ApiError::ContextWindowExceeded));
                        terminal = true;
                        proof {
                            assert(outputs_view(out@) =~= out_pre.push(
                                Err(ApiErrorV::ContextWindowExceeded),
                            ));
                        }
                    } else if crate::text::str_eq(reason.as_str(), "SAFETY") {
                        let ghost out_pre = outputs_view(out@);
                        out.push(
                            Err(
                                ApiError::Stream {
                                    message: String::from_str(
                                        "Response blocked by safety filters",
                                    ),
                                },
                            ),
                        );
                        terminal = true;
                        proof {
                            assert(outputs_view(out@) =~= out_pre.push(
                                Err(
                                    ApiErrorV::Stream {
                                        message: "Response blocked by safety filters"@,
                                    },
                                ),
                            ));
                        }
                    }
                },
                None => {},
            }
            proof {
                assert((counter, outputs_view(out@), terminal) == ({
                    let (c2, o2, t2) = spec_batch_candidate(c_in, cands_v[ci as int]);
                    (c2, pre + o2, t2)
                }));
            }
        }
        ci = ci + 1;
    }
    if !terminal {
        let usage = match resp.usage_metadata {
            Some(u) => Some(usage_tokens(u)),
            None => None,
        };
        let ghost out_pre = outputs_view(out@);
        out.push(Ok(ResponseEvent::Completed { response_id: String::new(), token_usage: usage }));
        proof {
            assert(outputs_view(out@) =~= out_pre.push(
                Ok(
                    ResponseEventV::Completed {
                        response_id: Seq::empty(),
                        token_usage: match resp@.usage_metadata {
                            Some(u) => Some(spec_usage_tokens(u)),
                            None => None,
                        },
                    },
                ),
            ));
        }
    }
    out
}

} // verus!
