//! Message construction: the run header, one line per pending pull request,
//! the pull request's age, and the thread key grouping a run's messages.

use vstd::prelude::*;

use crate::github::{GithubPullRequest, GithubUser};
use crate::text::{dec_digits, dec_int, i64_to_string, str_eq, u64_to_string};

verus! {

/// The lowercase form of a character sequence.
pub uninterp spec fn lower_of(s: Seq<char>) -> Seq<char>;

/// Relies on str::to_lowercase: the lowercase form depends on the characters
/// alone.
#[verifier::external_body]
fn lowercase(s: &str) -> (r: String)
    ensures
        r@ == lower_of(s@),
{
    s.to_lowercase()
}

/// A day of the week, for the run header.
#[derive(Clone, Copy)]
pub enum Weekday {
    Monday,
    Tuesday,
    Wednesday,
    Thursday,
    Friday,
    Saturday,
    Sunday,
}

pub open spec fn weekday_text(w: Weekday) -> Seq<char> {
    match w {
        Weekday::Monday => "Monday"@,
        Weekday::Tuesday => "Tuesday"@,
        Weekday::Wednesday => "Wednesday"@,
        Weekday::Thursday => "Thursday"@,
        Weekday::Friday => "Friday"@,
        Weekday::Saturday => "Saturday"@,
        Weekday::Sunday => "Sunday"@,
    }
}

pub fn weekday_name(w: Weekday) -> (r: &'static str)
    ensures
        r@ == weekday_text(w),
{
    match w {
        Weekday::Monday => "Monday",
        Weekday::Tuesday => "Tuesday",
        Weekday::Wednesday => "Wednesday",
        Weekday::Thursday => "Thursday",
        Weekday::Friday => "Friday",
        Weekday::Saturday => "Saturday",
        Weekday::Sunday => "Sunday",
    }
}

/// The elapsed whole days between two timestamps (seconds since the Unix
/// epoch), truncated towards zero.
pub open spec fn elapsed_whole_days(now: int, created: int) -> int {
    let diff = now - created;
    if diff >= 0 {
        diff / 86400
    } else {
        -((-diff) / 86400)
    }
}

/// The age line: `"NEW"` for 0 whole days, `"opened 1 day ago"` for exactly
/// 1, `"opened N days ago"` otherwise.
pub open spec fn age_text(days: int) -> Seq<char> {
    if days == 0 {
        "NEW"@
    } else if days == 1 {
        "opened 1 day ago"@
    } else {
        "opened "@ + dec_int(days) + " days ago"@
    }
}

/// Renders the age of a pull request created at `created_secs`, seen at
/// `now_secs`.
pub fn get_age(now_secs: i64, created_secs: i64) -> (r: String)
    requires
        i64::MIN <= now_secs - created_secs <= i64::MAX,
    ensures
        r@ == age_text(elapsed_whole_days(now_secs as int, created_secs as int)),
{
    let diff: i64 = now_secs - created_secs;
    let days: i64 = if diff >= 0 {
        ((diff as u64) / 86400) as i64
    } else {
        let magnitude: u64 = if diff == i64::MIN {
            9223372036854775808u64
        } else {
            (-diff) as u64
        };
        -((magnitude / 86400) as i64)
    };
    assert(days as int == elapsed_whole_days(now_secs as int, created_secs as int));
    if days == 0 {
        "NEW".to_owned()
    } else if days == 1 {
        "opened 1 day ago".to_owned()
    } else {
        let mut s = "opened ".to_owned();
        let rendered = i64_to_string(days);
        s.append(rendered.as_str());
        s.append(" days ago");
        proof {
            assert(s@ =~= age_text(days as int));
        }
        s
    }
}

/// `s` with every occurrence of `"https://"` removed, scanning left to
/// right.
pub open spec fn strip_scheme_text(s: Seq<char>) -> Seq<char>
    decreases s.len(),
{
    if s.len() >= 8 && s.take(8) == "https://"@ {
        strip_scheme_text(s.skip(8))
    } else if s.len() == 0 {
        s
    } else {
        s.take(1) + strip_scheme_text(s.skip(1))
    }
}

/// Removes every occurrence of `"https://"` from `s`.
pub fn strip_scheme(s: &str) -> (r: String)
    ensures
        r@ == strip_scheme_text(s@),
{
    let n = s.unicode_len();
    let mut out = String::new();
    let mut start: usize = 0;
    let mut i: usize = 0;
    proof {
        reveal_strlit("https://");
        assert(s@.skip(0) =~= s@);
        assert(out@ + s@.subrange(0, 0) =~= Seq::<char>::empty());
    }
    while i < n
        invariant
            0 <= start <= i <= n,
            n == s@.len(),
            strip_scheme_text(s@) == out@ + s@.subrange(start as int, i as int)
                + strip_scheme_text(s@.skip(i as int)),
        decreases n - i,
    {
        let matched = if n >= 8 && i <= n - 8 {
            let window = s.substring_char(i, i + 8);
            str_eq(window, "https://")
        } else {
            false
        };
        if matched {
            proof {
                assert(s@.skip(i as int).take(8) =~= s@.subrange(i as int, i + 8));
                assert(s@.skip(i as int).skip(8) =~= s@.skip(i + 8));
                assert(strip_scheme_text(s@.skip(i as int)) == strip_scheme_text(s@.skip(i + 8)));
            }
            let kept = s.substring_char(start, i);
            out.append(kept);
            proof {
                assert(out@ + s@.subrange(i + 8, i + 8) =~= out@);
            }
            i = i + 8;
            start = i;
        } else {
            proof {
                let tail = s@.skip(i as int);
                assert(tail.len() == n - i);
                if i + 8 <= n {
                    assert(tail.take(8) =~= s@.subrange(i as int, i + 8));
                    assert(tail.take(8) != "https://"@);
                }
                assert(strip_scheme_text(tail) == tail.take(1) + strip_scheme_text(tail.skip(1)));
                assert(tail.skip(1) =~= s@.skip(i + 1));
                assert(s@.subrange(start as int, i as int) + tail.take(1) =~= s@.subrange(
                    start as int,
                    i + 1,
                ));
            }
            i = i + 1;
        }
    }
    let kept = s.substring_char(start, n);
    out.append(kept);
    proof {
        assert(s@.skip(n as int).len() == 0);
        assert(strip_scheme_text(s@.skip(n as int)) =~= Seq::<char>::empty());
        assert(out@ =~= strip_scheme_text(s@));
    }
    out
}

/// The author line: the login tagged with a robot mark for bot accounts (the
/// account kind compares case-insensitively to `"bot"`), a person mark
/// otherwise.
pub open spec fn author_text(user: GithubUser) -> Seq<char> {
    if lower_of(user.user_type@) == "bot"@ {
        "🤖 "@ + user.login@
    } else {
        "👤 "@ + user.login@
    }
}

/// The optional age clause of a message.
pub open spec fn age_clause_text(pr: GithubPullRequest, show_pr_age: bool, now: int) -> Seq<char> {
    if show_pr_age {
        " - (_"@ + age_text(elapsed_whole_days(now, pr.created_at as int)) + "_)"@
    } else {
        Seq::empty()
    }
}

/// One pull request's message: a link label combining its URL (scheme
/// removed), repository short name and number, then the title, the optional
/// age, and the author line.
pub open spec fn message_text(pr: GithubPullRequest, show_pr_age: bool, now: int) -> Seq<char> {
    "<"@ + strip_scheme_text(pr.html_url@) + "|"@ + pr.head.repo.name@ + "#"@ + dec_digits(
        pr.number as nat,
    ) + "> - "@ + pr.title@ + age_clause_text(pr, show_pr_age, now) + " \n\n"@ + author_text(
        pr.user,
    ) + "\n"@
}

/// Builds the message announcing one pending pull request.
pub fn make_message(pr: &GithubPullRequest, show_pr_age: bool, now_secs: i64) -> (r: String)
    requires
        show_pr_age ==> i64::MIN <= now_secs - pr.created_at <= i64::MAX,
    ensures
        r@ == message_text(*pr, show_pr_age, now_secs as int),
{
    let mut m = "<".to_owned();
    let stripped = strip_scheme(pr.html_url.as_str());
    m.append(stripped.as_str());
    m.append("|");
    m.append(pr.head.repo.name.as_str());
    m.append("#");
    let number = u64_to_string(pr.number);
    m.append(number.as_str());
    m.append("> - ");
    m.append(pr.title.as_str());
    if show_pr_age {
        m.append(" - (_");
        let age = get_age(now_secs, pr.created_at);
        m.append(age.as_str());
        m.append("_)");
    }
    m.append(" \n\n");
    let lowered = lowercase(pr.user.user_type.as_str());
    if str_eq(lowered.as_str(), "bot") {
        m.append("🤖 ");
    } else {
        m.append("👤 ");
    }
    m.append(pr.user.login.as_str());
    m.append("\n");
    proof {
        assert(m@ =~= message_text(*pr, show_pr_age, now_secs as int));
    }
    m
}

/// The run header: a day-of-week banner and the hint that the Stale label
/// hides a pull request.
pub open spec fn header_text(w: Weekday) -> Seq<char> {
    "🧵 "@ + weekday_text(w) + " Reviews 🧵\n"@
        + "(PR's can be hidden from this bot by adding the Stale tag)\n"@
        + "--------------------\n\n"@
}

/// Builds the header message opening a run's thread.
pub fn header_message(w: Weekday) -> (r: String)
    ensures
        r@ == header_text(w),
{
    let mut m = "🧵 ".to_owned();
    m.append(weekday_name(w));
    m.append(" Reviews 🧵\n");
    m.append("(PR's can be hidden from this bot by adding the Stale tag)\n");
    m.append("--------------------\n\n");
    proof {
        assert(m@ =~= header_text(w));
    }
    m
}

/// All messages of one run: nothing when no pull request is pending,
/// otherwise the header followed by one message per pending pull request, in
/// input order.
pub open spec fn run_messages(
    prs: Seq<GithubPullRequest>,
    w: Weekday,
    show_pr_age: bool,
    now: int,
) -> Seq<Seq<char>> {
    if prs.len() == 0 {
        Seq::empty()
    } else {
        seq![header_text(w)] + prs.map_values(
            |pr: GithubPullRequest| message_text(pr, show_pr_age, now),
        )
    }
}

/// Builds the messages of one run from the pending pull requests.
pub fn build_messages(
    prs: &Vec<GithubPullRequest>,
    w: Weekday,
    show_pr_age: bool,
    now_secs: i64,
) -> (r: Vec<String>)
    requires
        show_pr_age ==> forall|i: int|
            0 <= i < prs@.len() ==> i64::MIN <= now_secs - #[trigger] prs@[i].created_at
                <= i64::MAX,
    ensures
        r.deep_view() == run_messages(prs@, w, show_pr_age, now_secs as int),
        prs@.len() == 0 ==> r@.len() == 0,
        prs@.len() > 0 ==> r@.len() == prs@.len() + 1,
{
    let mut out: Vec<String> = Vec::new();
    if prs.len() == 0 {
        proof {
            assert(out.deep_view() =~= run_messages(prs@, w, show_pr_age, now_secs as int));
        }
        return out;
    }
    out.push(header_message(w));
    let mut k: usize = 0;
    while k < prs.len()
        invariant
            0 <= k <= prs@.len(),
            out@.len() == k + 1,
            out@[0]@ == header_text(w),
            forall|i: int|
                0 <= i < k ==> out@[i + 1]@ == message_text(prs@[i], show_pr_age, now_secs as int),
            show_pr_age ==> forall|i: int|
                0 <= i < prs@.len() ==> i64::MIN <= now_secs - #[trigger] prs@[i].created_at
                    <= i64::MAX,
        decreases prs@.len() - k,
    {
        let m = make_message(&prs[k], show_pr_age, now_secs);
        out.push(m);
        k += 1;
    }
    proof {
        assert(out.deep_view() =~= run_messages(prs@, w, show_pr_age, now_secs as int));
    }
    out
}

/// The thread key of one run: a fixed prefix followed by the run's start
/// time, rendered by the caller.
pub fn thread_key(now_text: &str) -> (r: String)
    ensures
        r@ == "pr-thread-"@ + now_text@,
{
    let mut s = "pr-thread-".to_owned();
    s.append(now_text);
    s
}

} // verus!
