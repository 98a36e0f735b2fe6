//! Events announced on a page: what a link to an event tells.

use crate::text::{chars_of, stands_at, string_of};
use vstd::prelude::*;
use vstd::string::StringExecFns;

verus! {

/// An event.
#[derive(Debug)]
pub struct FacebookEvent {
    pub id: String,
    pub name: String,
    pub description: Option<String>,
    pub start_time: Option<String>,
    pub location: Option<String>,
    pub url: String,
    pub page_name: String,
}

/// An event as contracts see it.
pub struct EventView {
    pub id: Seq<char>,
    pub name: Seq<char>,
    pub description: Option<Seq<char>>,
    pub start_time: Option<Seq<char>>,
    pub location: Option<Seq<char>>,
    pub url: Seq<char>,
    pub page_name: Seq<char>,
}

pub open spec fn optional_text(t: Option<String>) -> Option<Seq<char>> {
    match t {
        Some(s) => Some(s@),
        None => None,
    }
}

impl View for FacebookEvent {
    type V = EventView;

    open spec fn view(&self) -> EventView {
        EventView {
            id: self.id@,
            name: self.name@,
            description: optional_text(self.description),
            start_time: optional_text(self.start_time),
            location: optional_text(self.location),
            url: self.url@,
            page_name: self.page_name@,
        }
    }
}

/// `pattern` stands in `s` at `at`.
pub open spec fn stands(s: Seq<char>, pattern: Seq<char>, at: int) -> bool {
    0 <= at && at + pattern.len() <= s.len() && s.subrange(at, at + pattern.len()) == pattern
}

/// The first place at or after `from` where `pattern` stands in `s`.
pub open spec fn first_match_from(s: Seq<char>, pattern: Seq<char>, from: int) -> Option<int>
    decreases s.len() - from,
{
    if from < 0 || from >= s.len() || from + pattern.len() > s.len() {
        None
    } else if stands(s, pattern, from) {
        Some(from)
    } else {
        first_match_from(s, pattern, from + 1)
    }
}

/// How many characters of `s` from `from` on come before the first slash
/// or question mark.
pub open spec fn run_length(s: Seq<char>, from: int) -> int
    decreases s.len() - from,
{
    if from < 0 || from >= s.len() || s[from] == '/' || s[from] == '?' {
        0
    } else {
        1 + run_length(s, from + 1)
    }
}

pub open spec fn all_digits(s: Seq<char>) -> bool {
    forall|i: int| 0 <= i < s.len() ==> '0' <= #[trigger] s[i] <= '9'
}

/// The number of the event that a link leads to: what follows the first
/// `/events/` up to the next slash or question mark, where that is a number.
pub open spec fn event_id_in(href: Seq<char>) -> Option<Seq<char>> {
    match first_match_from(href, "/events/"@, 0) {
        None => None,
        Some(k) => {
            let id = href.subrange(k + 8, k + 8 + run_length(href, k + 8));
            if id.len() > 0 && all_digits(id) {
                Some(id)
            } else {
                None
            }
        },
    }
}

/// The whole address of a link: the link itself where it begins with
/// `http`, else the link on the site.
pub open spec fn full_address(href: Seq<char>) -> Seq<char> {
    if stands(href, "http"@, 0) {
        href
    } else {
        "https://www.facebook.com"@ + href
    }
}

/// The run from `from` on never leaves the text.
proof fn lemma_run_fits(s: Seq<char>, from: int)
    requires
        0 <= from <= s.len(),
    ensures
        0 <= run_length(s, from) <= s.len() - from,
    decreases s.len() - from,
{
    if from < s.len() && s[from] != '/' && s[from] != '?' {
        lemma_run_fits(s, from + 1);
    }
}

/// Reads the event that the link `href`, found on the page `page_id`, leads
/// to. There is none unless the link holds `/events/` followed by a number;
/// see [`event_id_in`]. Of the event only the number and the address are
/// known then.
pub fn extract_event_from_link(href: &str, page_id: &str) -> (r: Option<FacebookEvent>)
    ensures
        match event_id_in(href@) {
            None => r is None,
            Some(id) => r matches Some(event) && event@ == (EventView {
                id,
                name: "New Event"@,
                description: None,
                start_time: None,
                location: None,
                url: full_address(href@),
                page_name: page_id@,
            }),
        },
{
    proof {
        reveal_strlit("/events/");
        reveal_strlit("http");
    }
    let letters = chars_of(href);
    let marker = chars_of("/events/");
    let scheme = chars_of("http");
    let mut found: Option<usize> = None;
    if letters.len() >= marker.len() {
        let mut i: usize = letters.len() - marker.len() + 1;
        assert(first_match_from(href@, "/events/"@, i as int) is None);
        while i > 0
            invariant
                i + 8 <= letters.len() + 1,
                letters@ == href@,
                marker@ == "/events/"@,
                marker@.len() == 8,
                found matches Some(k) ==> first_match_from(href@, "/events/"@, i as int) == Some(
                    k as int,
                ) && k + 8 <= letters.len(),
                found is None ==> first_match_from(href@, "/events/"@, i as int) is None,
            decreases i,
        {
            i -= 1;
            if stands_at(&letters, i, &marker) {
                found = Some(i);
            }
        }
    }
    let start = match found {
        None => {
            return None;
        },
        Some(k) => k + 8,
    };
    let mut end: usize = start;
    let mut numeric = true;
    proof {
        lemma_run_fits(href@, start as int);
    }
    while end < letters.len() && letters[end] != '/' && letters[end] != '?'
        invariant
            start <= end <= letters.len(),
            letters@ == href@,
            run_length(href@, start as int) == (end - start) + run_length(href@, end as int),
            numeric == all_digits(href@.subrange(start as int, end as int)),
        decreases letters.len() - end,
    {
        let c = letters[end];
        let ghost before = href@.subrange(start as int, end as int);
        let ghost after = href@.subrange(start as int, end + 1);
        assert(after =~= before.push(c));
        proof {
            if c < '0' || c > '9' {
                assert(!('0' <= after[after.len() - 1] <= '9'));
            } else if numeric {
                assert forall|j: int| 0 <= j < after.len() implies '0' <= #[trigger] after[j]
                    <= '9' by {
                    if j < before.len() {
                        assert(after[j] == before[j]);
                    }
                }
            } else {
                let j = choose|j: int| 0 <= j < before.len() && !('0' <= #[trigger] before[j] <= '9');
                assert(after[j] == before[j]);
            }
        }
        if c < '0' || c > '9' {
            numeric = false;
        }
        end += 1;
    }
    if end == start || !numeric {
        return None;
    }
    let mut id: Vec<char> = Vec::new();
    let mut k: usize = start;
    while k < end
        invariant
            start <= k <= end,
            end <= letters.len(),
            letters@ == href@,
            id@ == href@.subrange(start as int, k as int),
        decreases end - k,
    {
        id.push(letters[k]);
        k += 1;
        assert(id@ =~= href@.subrange(start as int, k as int));
    }
    let url = if letters.len() >= scheme.len() && stands_at(&letters, 0, &scheme) {
        String::from_str(href)
    } else {
        let mut url = String::from_str("https://www.facebook.com");
        url.append(href);
        url
    };
    Some(
        FacebookEvent {
            id: string_of(&id),
            name: String::from_str("New Event"),
            description: None,
            start_time: None,
            location: None,
            url,
            page_name: String::from_str(page_id),
        },
    )
}

} // verus!
