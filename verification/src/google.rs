//! The chat side: the message payload and the threaded webhook URL.
//!
//! The webhook URL is rebuilt for every run: any pre-existing `threadKey` or
//! `messageReplyOption` query parameters are stripped, every other parameter
//! is kept in order, and the run's reply option and thread key are appended.

use vstd::prelude::*;

use crate::text::str_eq;

verus! {

/// The JSON payload sent to the chat webhook: a single text field.
pub struct GoogleChatMessage {
    pub text: String,
}

/// Why a configured webhook URL was rejected.
#[derive(Clone, Copy, Debug, PartialEq, Eq)]
pub enum WebhookUrlError {
    /// The URL does not parse as an absolute URL.
    InvalidUrl,
}

/// Whether `url::Url::parse` accepts the string.
pub uninterp spec fn url_parse_ok(s: Seq<char>) -> bool;

/// The decoded (name, value) query pairs of the URL parsed from `s`.
pub uninterp spec fn url_query_pairs_of(s: Seq<char>) -> Seq<(Seq<char>, Seq<char>)>;

/// The serialization of the URL parsed from `s` after its query is replaced
/// by the given pairs.
pub uninterp spec fn url_with_query_pairs(s: Seq<char>, pairs: Seq<(Seq<char>, Seq<char>)>) -> Seq<
    char,
>;

/// Relies on url::Url::parse and url::Url::query_pairs: parsing either fails,
/// or yields the URL's decoded query pairs; both depend on the string alone.
#[verifier::external_body]
fn parse_query_pairs(s: &str) -> (r: Option<Vec<(String, String)>>)
    ensures
        r is Some <==> url_parse_ok(s@),
        r is Some ==> r->0.deep_view() == url_query_pairs_of(s@),
{
    let url = match url::Url::parse(s) {
        Ok(u) => u,
        Err(_) => return None,
    };
    Some(url.query_pairs().map(|(k, v)| (k.into_owned(), v.into_owned())).collect())
}

/// Relies on url::Url::parse, url::Url::query_pairs_mut (clear, then
/// extend_pairs) and url::Url::as_str: replacing the query of the URL parsed
/// from `s` with `pairs` and serializing depends on `s` and `pairs` alone.
#[verifier::external_body]
fn render_with_query_pairs(s: &str, pairs: &Vec<(String, String)>) -> (r: Option<String>)
    ensures
        r is Some <==> url_parse_ok(s@),
        r is Some ==> r->0@ == url_with_query_pairs(s@, pairs.deep_view()),
{
    let mut url = match url::Url::parse(s) {
        Ok(u) => u,
        Err(_) => return None,
    };
    url.query_pairs_mut().clear().extend_pairs(
        pairs.iter().map(|p| (p.0.as_str(), p.1.as_str())),
    );
    Some(url.as_str().to_string())
}

/// The query-parameter names the library itself manages.
pub open spec fn reserved_param(name: Seq<char>) -> bool {
    name == "threadKey"@ || name == "messageReplyOption"@
}

/// The rebuilt query: every non-reserved pair kept in order, then the fixed
/// reply option and the run's thread key.
pub open spec fn rebuilt_query_pairs(pairs: Seq<(Seq<char>, Seq<char>)>, tk: Seq<char>) -> Seq<
    (Seq<char>, Seq<char>),
> {
    pairs.filter(|p: (Seq<char>, Seq<char>)| !reserved_param(p.0)) + seq![
        ("messageReplyOption"@, "REPLY_MESSAGE_FALLBACK_TO_NEW_THREAD"@),
        ("threadKey"@, tk),
    ]
}

/// Rebuilds a URL's query pairs around the given thread key.
pub fn rebuild_query_pairs(pairs: Vec<(String, String)>, thread_key: &str) -> (r: Vec<
    (String, String),
>)
    ensures
        r.deep_view() == rebuilt_query_pairs(pairs.deep_view(), thread_key@),
{
    let ghost all = pairs.deep_view();
    let ghost pred = |p: (Seq<char>, Seq<char>)| !reserved_param(p.0);
    let mut input = pairs;
    let mut out: Vec<(String, String)> = Vec::new();
    let ghost mut k: int = 0;
    proof {
        reveal(Seq::filter);
        assert(all.take(0) =~= Seq::<(Seq<char>, Seq<char>)>::empty());
        assert(out.deep_view() =~= all.take(0).filter(pred));
    }
    while input.len() > 0
        invariant
            0 <= k <= all.len(),
            input@.len() == all.len() - k,
            forall|i: int| 0 <= i < input@.len() ==> #[trigger] input@[i].deep_view() == all[k + i],
            out.deep_view() == all.take(k).filter(pred),
            pred == (|p: (Seq<char>, Seq<char>)| !reserved_param(p.0)),
        decreases input@.len(),
    {
        let ghost prev = input@;
        let p = input.remove(0);
        proof {
            assert(p.deep_view() == all[k]);
            assert forall|i: int| 0 <= i < input@.len() implies #[trigger] input@[i].deep_view()
                == all[k + 1 + i] by {
                assert(input@[i] == prev[i + 1]);
                assert(prev[i + 1].deep_view() == all[k + i + 1]);
            }
        }
        let keep = !(str_eq(p.0.as_str(), "threadKey") || str_eq(
            p.0.as_str(),
            "messageReplyOption",
        ));
        let ghost out_before = out.deep_view();
        if keep {
            out.push(p);
            proof {
                assert(out.deep_view() =~= out_before.push(all[k]));
            }
        }
        proof {
            reveal(Seq::filter);
            assert(all.take(k + 1).drop_last() =~= all.take(k));
            assert(all.take(k + 1).last() == all[k]);
            assert(out.deep_view() == all.take(k + 1).filter(pred));
            k = k + 1;
        }
    }
    proof {
        assert(all.take(k) =~= all);
    }
    let ghost kept = out.deep_view();
    out.push(("messageReplyOption".to_owned(), "REPLY_MESSAGE_FALLBACK_TO_NEW_THREAD".to_owned()));
    out.push(("threadKey".to_owned(), thread_key.to_owned()));
    proof {
        assert(out.deep_view() =~= rebuilt_query_pairs(all, thread_key@));
    }
    out
}

impl GoogleChatMessage {
    /// Wraps a text in the message payload.
    pub fn from(text: String) -> (m: GoogleChatMessage)
        ensures
            m.text == text,
    {
        GoogleChatMessage { text }
    }

    /// Build a webhook URL with threadKey set to the provided value, and
    /// messageReplyOption set to allow threading.
    pub fn build_webhook_url(webhook_url: &str, thread_key: &str) -> (r: Result<
        String,
        WebhookUrlError,
    >)
        ensures
            r is Ok <==> url_parse_ok(webhook_url@),
            r is Ok ==> r->Ok_0@ == url_with_query_pairs(
                webhook_url@,
                rebuilt_query_pairs(url_query_pairs_of(webhook_url@), thread_key@),
            ),
            r is Err ==> r->Err_0 == WebhookUrlError::InvalidUrl,
    {
        let pairs = match parse_query_pairs(webhook_url) {
            Option::Some(p) => p,
            Option::None => {
                return Err(WebhookUrlError::InvalidUrl);
            },
        };
        let rebuilt = rebuild_query_pairs(pairs, thread_key);
        match render_with_query_pairs(webhook_url, &rebuilt) {
            Option::Some(s) => Ok(s),
            Option::None => {
                proof {
                    assert(false);
                }
                Err(WebhookUrlError::InvalidUrl)
            },
        }
    }
}

proof fn lemma_filter_all_satisfying<A>(s: Seq<A>, pred: spec_fn(A) -> bool)
    requires
        forall|i: int| 0 <= i < s.len() ==> pred(#[trigger] s[i]),
    ensures
        s.filter(pred) == s,
    decreases s.len(),
{
    reveal(Seq::filter);
    if s.len() == 0 {
        assert(s.filter(pred) =~= s);
    } else {
        assert(forall|i: int| 0 <= i < s.drop_last().len() ==> pred(#[trigger] s.drop_last()[i]));
        lemma_filter_all_satisfying(s.drop_last(), pred);
        assert(s.filter(pred) =~= s);
    }
}

proof fn lemma_filter_none_satisfying<A>(s: Seq<A>, pred: spec_fn(A) -> bool)
    requires
        forall|i: int| 0 <= i < s.len() ==> !pred(#[trigger] s[i]),
    ensures
        s.filter(pred) == Seq::<A>::empty(),
    decreases s.len(),
{
    reveal(Seq::filter);
    if s.len() == 0 {
        assert(s.filter(pred) =~= Seq::<A>::empty());
    } else {
        assert(forall|i: int| 0 <= i < s.drop_last().len() ==> !pred(#[trigger] s.drop_last()[i]));
        lemma_filter_none_satisfying(s.drop_last(), pred);
        assert(s.filter(pred) =~= Seq::<A>::empty());
    }
}

/// Rebuilding the query pairs is idempotent: applying the rebuild to its own
/// output, with the same thread key, yields the same pairs again — no
/// parameter is duplicated.
pub proof fn lemma_rebuild_idempotent(pairs: Seq<(Seq<char>, Seq<char>)>, tk: Seq<char>)
    ensures
        rebuilt_query_pairs(rebuilt_query_pairs(pairs, tk), tk) == rebuilt_query_pairs(pairs, tk),
{
    let pred = |p: (Seq<char>, Seq<char>)| !reserved_param(p.0);
    let kept = pairs.filter(pred);
    let tail = seq![
        ("messageReplyOption"@, "REPLY_MESSAGE_FALLBACK_TO_NEW_THREAD"@),
        ("threadKey"@, tk),
    ];
    let once = rebuilt_query_pairs(pairs, tk);
    Seq::filter_distributes_over_add(kept, tail, pred);
    assert forall|i: int| 0 <= i < kept.len() implies pred(#[trigger] kept[i]) by {
        pairs.lemma_filter_pred(pred, i);
    }
    lemma_filter_all_satisfying(kept, pred);
    assert(!pred(tail[0]));
    assert(!pred(tail[1]));
    lemma_filter_none_satisfying(tail, pred);
    assert(once.filter(pred) == kept + Seq::<(Seq<char>, Seq<char>)>::empty());
    assert(once.filter(pred) =~= kept);
}

/// The rebuild overwrites rather than appends: afterwards exactly one
/// threadKey pair (carrying the run's key) and exactly one reply-option pair
/// remain, while every unrelated pair is preserved in order.
pub proof fn lemma_rebuild_replaces_reserved(pairs: Seq<(Seq<char>, Seq<char>)>, tk: Seq<char>)
    ensures
        rebuilt_query_pairs(pairs, tk).filter(|p: (Seq<char>, Seq<char>)| !reserved_param(p.0))
            == pairs.filter(|p: (Seq<char>, Seq<char>)| !reserved_param(p.0)),
        rebuilt_query_pairs(pairs, tk).filter(|p: (Seq<char>, Seq<char>)| p.0 == "threadKey"@)
            == seq![("threadKey"@, tk)],
        rebuilt_query_pairs(pairs, tk).filter(
            |p: (Seq<char>, Seq<char>)| p.0 == "messageReplyOption"@,
        ) == seq![("messageReplyOption"@, "REPLY_MESSAGE_FALLBACK_TO_NEW_THREAD"@)],
{
    let pred = |p: (Seq<char>, Seq<char>)| !reserved_param(p.0);
    let is_tk = |p: (Seq<char>, Seq<char>)| p.0 == "threadKey"@;
    let is_mro = |p: (Seq<char>, Seq<char>)| p.0 == "messageReplyOption"@;
    let kept = pairs.filter(pred);
    let tail = seq![
        ("messageReplyOption"@, "REPLY_MESSAGE_FALLBACK_TO_NEW_THREAD"@),
        ("threadKey"@, tk),
    ];
    assert forall|i: int| 0 <= i < kept.len() implies pred(#[trigger] kept[i]) by {
        pairs.lemma_filter_pred(pred, i);
    }
    reveal_strlit("threadKey");
    reveal_strlit("messageReplyOption");
    assert("threadKey"@.len() != "messageReplyOption"@.len());

    Seq::filter_distributes_over_add(kept, tail, pred);
    lemma_filter_all_satisfying(kept, pred);
    lemma_filter_none_satisfying(tail, pred);
    assert(rebuilt_query_pairs(pairs, tk).filter(pred) =~= pairs.filter(pred));

    Seq::filter_distributes_over_add(kept, tail, is_tk);
    lemma_filter_none_satisfying(kept, is_tk);
    reveal(Seq::filter);
    assert(tail.drop_last() =~= seq![tail[0]]);
    assert(seq![tail[0]].drop_last() =~= Seq::<(Seq<char>, Seq<char>)>::empty());
    assert(seq![tail[0]].filter(is_tk) =~= Seq::<(Seq<char>, Seq<char>)>::empty());
    assert(tail.filter(is_tk) =~= seq![("threadKey"@, tk)]);
    assert(rebuilt_query_pairs(pairs, tk).filter(is_tk) =~= seq![("threadKey"@, tk)]);

    Seq::filter_distributes_over_add(kept, tail, is_mro);
    lemma_filter_none_satisfying(kept, is_mro);
    assert(seq![tail[0]].filter(is_mro) =~= seq![tail[0]]);
    assert(tail.filter(is_mro) =~= seq![tail[0]]);
    assert(rebuilt_query_pairs(pairs, tk).filter(is_mro) =~= seq![
        ("messageReplyOption"@, "REPLY_MESSAGE_FALLBACK_TO_NEW_THREAD"@),
    ]);
}

} // verus!
