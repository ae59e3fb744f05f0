//! The review filter pipeline: the rules deciding which open pull requests
//! are still awaiting review.
//!
//! Filtering runs in two phases. `filter_before_reviews` applies the rules
//! that need no review data (draft flag, excluded authors, allow-list,
//! excluded labels); only its survivors have their reviews fetched, by the
//! caller. `filter_by_reviews` then drops every survivor that already has an
//! approving review.

use vstd::prelude::*;

use crate::github::{GithubLabel, GithubPullRequest, GithubReview};
use crate::text::{dec_digits, str_eq, u64_to_string};

verus! {

/// The decision inputs of one run, constructed once from external
/// configuration and read-only throughout evaluation.
pub struct FilterConfig {
    /// Decimal user ids whose pull requests are never announced.
    pub ignored_users: Vec<String>,
    /// When present and non-empty, only these authors are announced.
    pub announced_users: Option<Vec<u64>>,
    /// Label names that hide a pull request from the run.
    pub ignored_labels: Vec<String>,
    /// Whether each message carries the pull request's age.
    pub show_pr_age: bool,
}

/// The author's id, rendered in decimal, is on the exclusion list.
pub open spec fn author_ignored(pr: GithubPullRequest, cfg: FilterConfig) -> bool {
    exists|i: int|
        0 <= i < cfg.ignored_users@.len() && cfg.ignored_users@[i]@ == dec_digits(pr.user.id as nat)
}

/// The allow-list rule: an absent or empty allow-list imposes no restriction;
/// a non-empty one requires the author to be on it.
pub open spec fn author_allowed(pr: GithubPullRequest, cfg: FilterConfig) -> bool {
    match cfg.announced_users {
        Option::None => true,
        Option::Some(users) => users@.len() == 0 || users@.contains(pr.user.id),
    }
}

/// The label's name is on the excluded-labels list.
pub open spec fn label_ignored(label: GithubLabel, cfg: FilterConfig) -> bool {
    exists|j: int| 0 <= j < cfg.ignored_labels@.len() && cfg.ignored_labels@[j]@ == label.name@
}

/// Some label of the pull request is excluded.
pub open spec fn has_ignored_label(pr: GithubPullRequest, cfg: FilterConfig) -> bool {
    exists|i: int| 0 <= i < pr.labels@.len() && label_ignored(pr.labels@[i], cfg)
}

/// The rules decided before any review is fetched: a pull request survives
/// them iff it is not a draft, its author is neither excluded nor outside a
/// configured allow-list, and none of its labels is excluded.
pub open spec fn passes_pre_review(pr: GithubPullRequest, cfg: FilterConfig) -> bool {
    &&& !pr.draft
    &&& !author_ignored(pr, cfg)
    &&& author_allowed(pr, cfg)
    &&& !has_ignored_label(pr, cfg)
}

/// Some review in the set has state `"APPROVED"`.
pub open spec fn has_approved_review(reviews: Seq<GithubReview>) -> bool {
    exists|i: int| 0 <= i < reviews.len() && reviews[i].state@ == "APPROVED"@
}

/// The full decision for one pull request: pending review iff it survives the
/// pre-review rules and no fetched review approves it.
pub open spec fn needs_review(
    pr: GithubPullRequest,
    reviews: Seq<GithubReview>,
    cfg: FilterConfig,
) -> bool {
    passes_pre_review(pr, cfg) && !has_approved_review(reviews)
}

/// The order-preserving subsequence of pull requests surviving the
/// pre-review rules.
pub open spec fn pre_review_survivors(
    prs: Seq<GithubPullRequest>,
    cfg: FilterConfig,
) -> Seq<GithubPullRequest> {
    prs.filter(|pr: GithubPullRequest| passes_pre_review(pr, cfg))
}

/// The order-preserving subsequence of `prs` whose review set (at the same
/// position in `reviews`) holds no approval.
pub open spec fn review_pending(
    prs: Seq<GithubPullRequest>,
    reviews: Seq<Seq<GithubReview>>,
) -> Seq<GithubPullRequest>
    recommends
        prs.len() == reviews.len(),
    decreases prs.len(),
{
    if prs.len() == 0 {
        Seq::empty()
    } else {
        let rest = review_pending(prs.drop_last(), reviews.drop_last());
        if has_approved_review(reviews.last()) {
            rest
        } else {
            rest.push(prs.last())
        }
    }
}

fn contains_string(list: &Vec<String>, s: &str) -> (r: bool)
    ensures
        r == exists|i: int| 0 <= i < list@.len() && list@[i]@ == s@,
{
    let mut k: usize = 0;
    while k < list.len()
        invariant
            k <= list@.len(),
            forall|i: int| 0 <= i < k ==> list@[i]@ != s@,
        decreases list@.len() - k,
    {
        if str_eq(list[k].as_str(), s) {
            assert(list@[k as int]@ == s@);
            return true;
        }
        k += 1;
    }
    false
}

fn contains_u64(list: &Vec<u64>, x: u64) -> (r: bool)
    ensures
        r == list@.contains(x),
{
    let mut k: usize = 0;
    while k < list.len()
        invariant
            k <= list@.len(),
            forall|i: int| 0 <= i < k ==> list@[i] != x,
        decreases list@.len() - k,
    {
        if list[k] == x {
            assert(list@[k as int] == x);
            return true;
        }
        k += 1;
    }
    false
}

impl FilterConfig {
    /// Decides the pre-review rules for one pull request, in order: draft
    /// check, exclusion list, allow-list, excluded labels.
    pub fn admits_before_reviews(&self, pr: &GithubPullRequest) -> (r: bool)
        ensures
            r == passes_pre_review(*pr, *self),
    {
        if pr.draft {
            return false;
        }
        let id_text = u64_to_string(pr.user.id);
        if contains_string(&self.ignored_users, id_text.as_str()) {
            return false;
        }
        match &self.announced_users {
            Option::Some(users) => {
                if users.len() > 0 && !contains_u64(users, pr.user.id) {
                    return false;
                }
            },
            Option::None => {},
        }
        let mut k: usize = 0;
        while k < pr.labels.len()
            invariant
                k <= pr.labels@.len(),
                forall|i: int| 0 <= i < k ==> !label_ignored(pr.labels@[i], *self),
            decreases pr.labels@.len() - k,
        {
            if contains_string(&self.ignored_labels, pr.labels[k].name.as_str()) {
                assert(label_ignored(pr.labels@[k as int], *self));
                return false;
            }
            k += 1;
        }
        true
    }
}

/// Applies the pre-review rules to a repository's open pull requests,
/// keeping input order. Reviews must be fetched only for the survivors.
pub fn filter_before_reviews(prs: Vec<GithubPullRequest>, cfg: &FilterConfig) -> (r: Vec<
    GithubPullRequest,
>)
    ensures
        r@ == pre_review_survivors(prs@, *cfg),
{
    let ghost all = prs@;
    let ghost pred = |pr: GithubPullRequest| passes_pre_review(pr, *cfg);
    let mut input = prs;
    let mut out: Vec<GithubPullRequest> = Vec::new();
    let ghost mut k: int = 0;
    proof {
        reveal(Seq::filter);
        assert(all.take(0) =~= Seq::<GithubPullRequest>::empty());
    }
    while input.len() > 0
        invariant
            0 <= k <= all.len(),
            input@ == all.skip(k),
            out@ == all.take(k).filter(pred),
            pred == (|pr: GithubPullRequest| passes_pre_review(pr, *cfg)),
        decreases input@.len(),
    {
        let pr = input.remove(0);
        proof {
            assert(pr == all[k]);
            assert(input@ =~= all.skip(k + 1));
        }
        if cfg.admits_before_reviews(&pr) {
            out.push(pr);
        }
        proof {
            reveal(Seq::filter);
            assert(all.take(k + 1).drop_last() =~= all.take(k));
            assert(all.take(k + 1).last() == all[k]);
            assert(out@ == all.take(k + 1).filter(pred));
            k = k + 1;
        }
    }
    proof {
        assert(all.take(k) =~= all);
    }
    out
}

/// Decides whether any review in the set has state `"APPROVED"`.
pub fn has_approved(reviews: &Vec<GithubReview>) -> (r: bool)
    ensures
        r == has_approved_review(reviews@),
{
    let mut k: usize = 0;
    while k < reviews.len()
        invariant
            k <= reviews@.len(),
            forall|i: int| 0 <= i < k ==> reviews@[i].state@ != "APPROVED"@,
        decreases reviews@.len() - k,
    {
        if str_eq(reviews[k].state.as_str(), "APPROVED") {
            assert(reviews@[k as int].state@ == "APPROVED"@);
            return true;
        }
        k += 1;
    }
    false
}

/// Applies the review rule to the pre-review survivors: `reviews[i]` is the
/// fetched review set of `prs[i]`, and a pull request is kept iff its set
/// holds no approval. Input order is preserved.
pub fn filter_by_reviews(
    prs: Vec<GithubPullRequest>,
    reviews: Vec<Vec<GithubReview>>,
) -> (r: Vec<GithubPullRequest>)
    requires
        prs@.len() == reviews@.len(),
    ensures
        r@ == review_pending(prs@, reviews@.map_values(|v: Vec<GithubReview>| v@)),
{
    let ghost allp = prs@;
    let ghost allr = reviews@.map_values(|v: Vec<GithubReview>| v@);
    let mut input = prs;
    let mut revs = reviews;
    let mut out: Vec<GithubPullRequest> = Vec::new();
    let ghost mut k: int = 0;
    while input.len() > 0
        invariant
            0 <= k <= allp.len(),
            allp.len() == allr.len(),
            input@ == allp.skip(k),
            revs@.map_values(|v: Vec<GithubReview>| v@) == allr.skip(k),
            out@ == review_pending(allp.take(k), allr.take(k)),
        decreases input@.len(),
    {
        proof {
            assert(revs@.map_values(|v: Vec<GithubReview>| v@).len() == revs@.len());
            assert(revs@.map_values(|v: Vec<GithubReview>| v@)[0] == revs@[0]@);
            assert(allr.skip(k)[0] == allr[k]);
        }
        let ghost prev = revs@;
        let pr = input.remove(0);
        let rv = revs.remove(0);
        proof {
            assert(pr == allp[k]);
            assert(rv@ == allr[k]);
            assert(input@ =~= allp.skip(k + 1));
            assert(revs@ =~= prev.skip(1));
            assert forall|j: int| 0 <= j < revs@.len() implies revs@.map_values(
                |v: Vec<GithubReview>| v@,
            )[j] == #[trigger] allr.skip(k + 1)[j] by {
                assert(revs@[j] == prev[j + 1]);
                assert(prev.map_values(|v: Vec<GithubReview>| v@)[j + 1] == prev[j + 1]@);
                assert(allr.skip(k)[j + 1] == allr[k + 1 + j]);
            }
            assert(revs@.map_values(|v: Vec<GithubReview>| v@) =~= allr.skip(k + 1));
        }
        if !has_approved(&rv) {
            out.push(pr);
        }
        proof {
            assert(allp.take(k + 1).drop_last() =~= allp.take(k));
            assert(allr.take(k + 1).drop_last() =~= allr.take(k));
            assert(allp.take(k + 1).last() == allp[k]);
            assert(allr.take(k + 1).last() == allr[k]);
            assert(out@ == review_pending(allp.take(k + 1), allr.take(k + 1)));
            k = k + 1;
        }
    }
    proof {
        assert(allp.take(k) =~= allp);
        assert(allr.take(k) =~= allr);
    }
    out
}

/// A draft pull request is never pending review, whatever its other fields
/// or its reviews: it fails the pre-review rules, so it is dropped before any
/// review is fetched.
pub proof fn lemma_draft_never_included(
    pr: GithubPullRequest,
    reviews: Seq<GithubReview>,
    cfg: FilterConfig,
)
    requires
        pr.draft,
    ensures
        !passes_pre_review(pr, cfg),
        !needs_review(pr, reviews, cfg),
{
}

/// An author on the exclusion list is never included, even when the
/// allow-list also holds the author.
pub proof fn lemma_ignored_author_never_included(
    pr: GithubPullRequest,
    reviews: Seq<GithubReview>,
    cfg: FilterConfig,
)
    requires
        author_ignored(pr, cfg),
    ensures
        !passes_pre_review(pr, cfg),
        !needs_review(pr, reviews, cfg),
{
}

/// When a non-empty allow-list is configured, inclusion requires the author
/// to be on it; an absent or empty allow-list imposes no restriction.
pub proof fn lemma_allow_list(pr: GithubPullRequest, reviews: Seq<GithubReview>, cfg: FilterConfig)
    ensures
        (match cfg.announced_users {
            Option::Some(users) => users@.len() > 0 && !users@.contains(pr.user.id),
            Option::None => false,
        }) ==> !needs_review(pr, reviews, cfg),
        (match cfg.announced_users {
            Option::Some(users) => users@.len() == 0,
            Option::None => true,
        }) ==> author_allowed(pr, cfg),
{
}

/// A pull request carrying at least one excluded label is never included.
pub proof fn lemma_ignored_label_never_included(
    pr: GithubPullRequest,
    reviews: Seq<GithubReview>,
    cfg: FilterConfig,
    i: int,
)
    requires
        0 <= i < pr.labels@.len(),
        label_ignored(pr.labels@[i], cfg),
    ensures
        !passes_pre_review(pr, cfg),
        !needs_review(pr, reviews, cfg),
{
}

/// For a pull request surviving the pre-review rules, inclusion holds iff no
/// fetched review has state `"APPROVED"`; in particular, one with no reviews
/// at all is included.
pub proof fn lemma_review_gate(
    pr: GithubPullRequest,
    reviews: Seq<GithubReview>,
    cfg: FilterConfig,
)
    requires
        passes_pre_review(pr, cfg),
    ensures
        needs_review(pr, reviews, cfg) <==> !has_approved_review(reviews),
        reviews.len() == 0 ==> needs_review(pr, reviews, cfg),
{
}

/// The first phase keeps exactly the right pull requests: everything in the
/// pre-review survivor list passes the pre-review rules, and everything of
/// the input that passes them is in the list.
pub proof fn lemma_survivors_sound(
    prs: Seq<GithubPullRequest>,
    cfg: FilterConfig,
    pr: GithubPullRequest,
)
    ensures
        pre_review_survivors(prs, cfg).contains(pr) ==> passes_pre_review(pr, cfg),
        passes_pre_review(pr, cfg) && prs.contains(pr) ==> pre_review_survivors(prs, cfg).contains(
            pr,
        ),
{
    let pred = |p: GithubPullRequest| passes_pre_review(p, cfg);
    let survivors = pre_review_survivors(prs, cfg);
    if survivors.contains(pr) {
        let i = choose|i: int| 0 <= i < survivors.len() && survivors[i] == pr;
        prs.lemma_filter_pred(pred, i);
    }
    if passes_pre_review(pr, cfg) && prs.contains(pr) {
        let i = choose|i: int| 0 <= i < prs.len() && prs[i] == pr;
        prs.lemma_filter_contains(pred, i);
    }
}

/// The second phase keeps exactly the right pull requests: with `reviews[i]`
/// the fetched review set of `prs[i]`, a pull request stands in the pending
/// list iff it stands in the input at a position whose review set holds no
/// approval.
pub proof fn lemma_review_pending_membership(
    prs: Seq<GithubPullRequest>,
    reviews: Seq<Seq<GithubReview>>,
    pr: GithubPullRequest,
)
    requires
        prs.len() == reviews.len(),
    ensures
        review_pending(prs, reviews).contains(pr) <==> exists|i: int|
            0 <= i < prs.len() && prs[i] == pr && !has_approved_review(#[trigger] reviews[i]),
    decreases prs.len(),
{
    if prs.len() == 0 {
    } else {
        let n = prs.len() as int;
        lemma_review_pending_membership(prs.drop_last(), reviews.drop_last(), pr);
        let rest = review_pending(prs.drop_last(), reviews.drop_last());
        let here = review_pending(prs, reviews);
        if here.contains(pr) {
            if has_approved_review(reviews.last()) {
                let i = choose|i: int|
                    0 <= i < n - 1 && prs.drop_last()[i] == pr && !has_approved_review(
                        #[trigger] reviews.drop_last()[i],
                    );
                assert(prs[i] == pr && !has_approved_review(reviews[i]));
            } else {
                assert(here == rest.push(prs.last()));
                if pr == prs.last() {
                    assert(prs[n - 1] == pr && !has_approved_review(reviews[n - 1]));
                } else {
                    assert(rest.contains(pr)) by {
                        let j = choose|j: int| 0 <= j < here.len() && here[j] == pr;
                        assert(rest[j] == pr);
                    }
                    let i = choose|i: int|
                        0 <= i < n - 1 && prs.drop_last()[i] == pr && !has_approved_review(
                            #[trigger] reviews.drop_last()[i],
                        );
                    assert(prs[i] == pr && !has_approved_review(reviews[i]));
                }
            }
        }
        if exists|i: int|
            0 <= i < n && prs[i] == pr && !has_approved_review(#[trigger] reviews[i]) {
            let i = choose|i: int|
                0 <= i < n && prs[i] == pr && !has_approved_review(#[trigger] reviews[i]);
            if i == n - 1 {
                assert(!has_approved_review(reviews.last()));
                assert(here == rest.push(prs.last()));
                assert(here[here.len() - 1] == pr);
                assert(here.contains(pr));
            } else {
                assert(prs.drop_last()[i] == pr && !has_approved_review(reviews.drop_last()[i]));
                assert(rest.contains(pr));
                let j = choose|j: int| 0 <= j < rest.len() && rest[j] == pr;
                if has_approved_review(reviews.last()) {
                    assert(here.contains(pr));
                } else {
                    assert(here == rest.push(prs.last()));
                    assert(here[j] == pr);
                    assert(here.contains(pr));
                }
            }
        }
    }
}

} // verus!
