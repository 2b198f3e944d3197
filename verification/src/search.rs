//! Search and browse policy over the archive collaborator's raw results:
//! the single lower-case retry for empty searches, the collation that keeps
//! readable entries in collaborator order, the result cap, and the
//! article-class filter used when browsing.

use vstd::prelude::*;

verus! {

/// The most results a search ever returns, however many the collaborator
/// could produce.
pub const RESULT_CAP: usize = 50;

/// One raw search result: a readable entry with its title, or an entry the
/// collaborator failed to read, which is reported rather than silently
/// dropped from the raw sequence.
pub enum SearchEntry {
    Found { title: String },
    Unreadable,
}

/// The titles of the readable entries, in collaborator order.
pub open spec fn collate_spec(results: Seq<SearchEntry>) -> Seq<Seq<char>>
    decreases results.len(),
{
    if results.len() == 0 {
        Seq::empty()
    } else {
        collate_spec(results.drop_last()) + (match results.last() {
            SearchEntry::Found { title } => seq![title@],
            SearchEntry::Unreadable => Seq::empty(),
        })
    }
}

/// Keep the readable entries' titles, preserving collaborator order;
/// unreadable entries are skipped, never turned into failures.
pub fn collate_results(results: &Vec<SearchEntry>) -> (r: Vec<String>)
    ensures
        r.deep_view() == collate_spec(results@),
{
    let mut r: Vec<String> = Vec::new();
    let n = results.len();
    proof {
        assert(results@.take(0) =~= Seq::<SearchEntry>::empty());
        assert(r.deep_view() =~= collate_spec(results@.take(0)));
    }
    for i in 0..n
        invariant
            n == results.len(),
            r.deep_view() == collate_spec(results@.take(i as int)),
    {
        proof {
            assert(results@.take(i + 1).drop_last() =~= results@.take(i as int));
            assert(results@.take(i + 1).last() == results@[i as int]);
        }
        let ghost before = r.deep_view();
        match &results[i] {
            SearchEntry::Found { title } => {
                r.push(title.clone());
                proof {
                    assert(r.deep_view() =~= before + seq![results@[i as int]->Found_title@]);
                }
            },
            SearchEntry::Unreadable => {
                proof {
                    assert(r.deep_view() =~= before + Seq::<Seq<char>>::empty());
                }
            },
        }
    }
    proof {
        assert(results@.take(n as int) =~= results@);
    }
    r
}

/// A result sequence cut at the cap, collaborator order preserved.
pub open spec fn spec_capped(results: Seq<Seq<char>>) -> Seq<Seq<char>> {
    if results.len() <= RESULT_CAP {
        results
    } else {
        results.take(RESULT_CAP as int)
    }
}

/// Cap the collated results, keeping the order across the cut.
pub fn cap_results(results: Vec<String>) -> (r: Vec<String>)
    ensures
        r.deep_view() == spec_capped(results.deep_view()),
        r@.len() <= RESULT_CAP,
{
    let mut r = results;
    if r.len() > RESULT_CAP {
        let ghost whole = r.deep_view();
        r.truncate(RESULT_CAP);
        proof {
            assert(r.deep_view() =~= whole.take(RESULT_CAP as int));
        }
    }
    r
}

/// What the results of the first query dictate.  The result depends on the
/// characters of the query alone.
pub uninterp spec fn lower_of(s: Seq<char>) -> Seq<char>;

/// Relies on str::to_lowercase: the lower-case form of the query, a
/// function of its characters alone.
#[verifier::external_body]
fn lowercase(q: &str) -> (r: String)
    ensures
        r@ == lower_of(q@),
{
    q.to_lowercase()
}

/// The single retry a search is allowed: exactly when the first query came
/// back with zero raw results, and then with the query lower-cased.  A
/// first query with any result, readable or not, is final.
pub fn retry_query(query: &String, first: &Vec<SearchEntry>) -> (r: Option<String>)
    ensures
        (r is Some) == (first@.len() == 0),
        r matches Some(q) ==> q@ == lower_of(query@),
{
    if first.is_empty() {
        Some(lowercase(query.as_str()))
    } else {
        None
    }
}

/// The titles a search session answers with: the collated first results,
/// or, when the first query returned none, the collated results of its one
/// lower-case retry; capped either way.
pub open spec fn spec_search_results(first: Seq<SearchEntry>, retried: Seq<SearchEntry>) -> Seq<
    Seq<char>,
> {
    if first.len() == 0 {
        spec_capped(collate_spec(retried))
    } else {
        spec_capped(collate_spec(first))
    }
}

/// Resolve a search session from the raw results of the first query and of
/// its retry (an empty sequence where no retry ran).
pub fn resolve_search(first: Vec<SearchEntry>, retried: Vec<SearchEntry>) -> (r: Vec<String>)
    ensures
        r.deep_view() == spec_search_results(first@, retried@),
        r@.len() <= RESULT_CAP,
{
    if first.is_empty() {
        cap_results(collate_results(&retried))
    } else {
        cap_results(collate_results(&first))
    }
}

/// However a session went, the answer never exceeds the cap.
pub proof fn lemma_results_never_exceed_cap(first: Seq<SearchEntry>, retried: Seq<SearchEntry>)
    ensures
        spec_search_results(first, retried).len() <= RESULT_CAP,
{
}

/// One observation made while browsing: an entry the collaborator could
/// not read, or one it could, with its title and, where readable, the
/// media type of its content.
pub enum BrowseEntry {
    Unreadable,
    Entry { title: String, mimetype: Option<String> },
}

/// An article-class media type: one whose name starts with "text/html".
pub open spec fn is_html_mimetype(m: Seq<char>) -> bool {
    m.len() >= 9 && m.take(9) == "text/html"@
}

/// Whether a media type marks an article.
pub fn html_mimetype(m: &String) -> (r: bool)
    ensures
        r == is_html_mimetype(m@),
{
    proof {
        reveal_strlit("text/html");
    }
    let s = m.as_str();
    if s.unicode_len() < 9 {
        return false;
    }
    let r = s.get_char(0) == 't' && s.get_char(1) == 'e' && s.get_char(2) == 'x' && s.get_char(3)
        == 't' && s.get_char(4) == '/' && s.get_char(5) == 'h' && s.get_char(6) == 't'
        && s.get_char(7) == 'm' && s.get_char(8) == 'l';
    proof {
        if r {
            assert(m@.take(9) =~= "text/html"@);
        } else if m@.take(9) == "text/html"@ {
            assert forall|k: int| 0 <= k < 9 implies m@[k] == "text/html"@[k] by {
                assert(m@.take(9)[k] == m@[k]);
                assert(m@.take(9)[k] == "text/html"@[k]);
            }
            assert(m@[0] == 't' && m@[1] == 'e' && m@[2] == 'x' && m@[3] == 't' && m@[4] == '/'
                && m@[5] == 'h' && m@[6] == 't' && m@[7] == 'm' && m@[8] == 'l');
            assert(false);
        }
    }
    r
}

/// The titles browsing lists: every readable entry whose content is
/// article-class, in collaborator enumeration order.
pub open spec fn browse_spec(entries: Seq<BrowseEntry>) -> Seq<Seq<char>>
    decreases entries.len(),
{
    if entries.len() == 0 {
        Seq::empty()
    } else {
        browse_spec(entries.drop_last()) + (match entries.last() {
            BrowseEntry::Entry { title, mimetype } => match mimetype {
                Some(m) => if is_html_mimetype(m@) {
                    seq![title@]
                } else {
                    Seq::empty()
                },
                None => Seq::empty(),
            },
            BrowseEntry::Unreadable => Seq::empty(),
        })
    }
}

/// List every article-class entry's title, in enumeration order; entries
/// that could not be read, and entries of other media types, are skipped.
pub fn browse_titles(entries: &Vec<BrowseEntry>) -> (r: Vec<String>)
    ensures
        r.deep_view() == browse_spec(entries@),
{
    let mut r: Vec<String> = Vec::new();
    let n = entries.len();
    proof {
        assert(entries@.take(0) =~= Seq::<BrowseEntry>::empty());
        assert(r.deep_view() =~= browse_spec(entries@.take(0)));
    }
    for i in 0..n
        invariant
            n == entries.len(),
            r.deep_view() == browse_spec(entries@.take(i as int)),
    {
        proof {
            assert(entries@.take(i + 1).drop_last() =~= entries@.take(i as int));
            assert(entries@.take(i + 1).last() == entries@[i as int]);
        }
        let ghost before = r.deep_view();
        match &entries[i] {
            BrowseEntry::Entry { title, mimetype } => {
                match mimetype {
                    Some(m) => {
                        if html_mimetype(m) {
                            r.push(title.clone());
                            proof {
                                assert(r.deep_view() =~= before + seq![title@]);
                            }
                        } else {
                            proof {
                                assert(r.deep_view() =~= before + Seq::<Seq<char>>::empty());
                            }
                        }
                    },
                    None => {
                        proof {
                            assert(r.deep_view() =~= before + Seq::<Seq<char>>::empty());
                        }
                    },
                }
            },
            BrowseEntry::Unreadable => {
                proof {
                    assert(r.deep_view() =~= before + Seq::<Seq<char>>::empty());
                }
            },
        }
    }
    proof {
        assert(entries@.take(n as int) =~= entries@);
    }
    r
}

} // verus!
