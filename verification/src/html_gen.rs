//! The layout of the status pages: how the list of root jobs is cut into
//! pages.  Filling and writing the pages is left to whoever renders them.

use crate::text::{append, decimal, u64_to_string};
use vstd::prelude::*;

verus! {

/// How many jobs a page lists, the first page aside.
pub const JOBS_PER_PAGE: usize = 20;

/// How many jobs the first page lists: all of them while they are fewer
/// than two full pages; else one full page and what is left over when the
/// jobs are cut into full pages.
pub open spec fn spec_first_page_jobs(total: int) -> int {
    if total > total % 20 + 20 {
        total % 20 + 20
    } else {
        total
    }
}

/// How many pages follow the first.
pub open spec fn spec_older_pages(total: int) -> int {
    (total - spec_first_page_jobs(total)) / 20
}

/// One page of the list of root jobs.
#[derive(Debug, Clone, Copy, PartialEq, Eq, Structural)]
pub struct RootPage {
    /// The page's number; 0 is the first page.
    pub number: usize,
    /// The position of the first job on the page.
    pub start: usize,
    /// The position after the last job on the page.
    pub end: usize,
    /// The page to go back to, if there is one.
    pub prev_page: Option<usize>,
    /// The page to go on to, if there is one.
    pub next_page: Option<usize>,
}

/// The first page: it lists the first jobs and leads back to the page with
/// the highest number, if there are further pages.
pub open spec fn spec_first_page(total: int) -> RootPage {
    RootPage {
        number: 0,
        start: 0,
        end: spec_first_page_jobs(total) as usize,
        prev_page: if spec_older_pages(total) > 0 {
            Some(spec_older_pages(total) as usize)
        } else {
            None
        },
        next_page: None,
    }
}

/// The page of number `k`, from 1 up to the number of pages that follow
/// the first: the page with the highest number starts where the first page
/// ends, and page 1 lists the last jobs.  It leads back to the page below
/// it, and on to the page above it or, from the highest, to the first.
pub open spec fn spec_later_page(total: int, k: int) -> RootPage {
    let older = spec_older_pages(total);
    let start = spec_first_page_jobs(total) + (older - k) * 20;
    RootPage {
        number: k as usize,
        start: start as usize,
        end: (start + 20) as usize,
        prev_page: if k > 1 {
            Some((k - 1) as usize)
        } else {
            None
        },
        next_page: if k + 1 <= older {
            Some((k + 1) as usize)
        } else {
            Some(0)
        },
    }
}

/// The pages lie end to end and cover every job: the first page starts at
/// the first job, each further page starts where the one before it ends,
/// and page 1, or the first page where it is alone, ends at the last job.
pub proof fn lemma_pages_cover_all_jobs(total: int)
    requires
        0 <= total <= usize::MAX,
    ensures
        0 <= spec_first_page_jobs(total) <= total,
        0 <= spec_older_pages(total),
        spec_first_page_jobs(total) + spec_older_pages(total) * 20 == total,
        total >= 40 <==> spec_older_pages(total) > 0,
        total >= 40 ==> spec_first_page_jobs(total) == total % 20 + 20 && spec_older_pages(total)
            == total / 20 - 1,
        forall|k: int|
            1 <= k <= spec_older_pages(total) ==> {
                &&& (#[trigger] spec_later_page(total, k)).start == spec_first_page_jobs(total) + (
                spec_older_pages(total) - k) * 20
                &&& spec_later_page(total, k).end == spec_later_page(total, k).start + 20
                &&& spec_later_page(total, k).end <= total
            },
        spec_older_pages(total) >= 1 ==> spec_later_page(total, 1).end == total,
{
    assert(total == 20 * (total / 20) + total % 20) by (nonlinear_arith)
        requires
            0 <= total,
    ;
    assert(0 <= total % 20 < 20);
    if total > total % 20 + 20 {
        let q = total / 20;
        assert(total - (total % 20 + 20) == 20 * (q - 1));
        assert((20 * (q - 1)) / 20 == q - 1) by (nonlinear_arith);
    } else {
        assert(0int / 20 == 0);
    }
    let older = spec_older_pages(total);
    let first = spec_first_page_jobs(total);
    assert forall|k: int| 1 <= k <= older implies {
        &&& (#[trigger] spec_later_page(total, k)).start == first + (older - k) * 20
        &&& spec_later_page(total, k).end == spec_later_page(total, k).start + 20
        &&& spec_later_page(total, k).end <= total
    } by {
        assert(first + (older - k) * 20 + 20 <= first + older * 20) by (nonlinear_arith)
            requires
                1 <= k,
        ;
        assert(0 <= first + (older - k) * 20) by (nonlinear_arith)
            requires
                k <= older,
                0 <= first,
        ;
    }
}

/// Cuts the list of `total_jobs` root jobs into pages: the first page,
/// then the further pages from the highest number down to 1, which is the
/// order of the jobs they list.
pub fn root_pages(total_jobs: usize) -> (pages: Vec<RootPage>)
    ensures
        pages@.len() == spec_older_pages(total_jobs as int) + 1,
        pages@[0] == spec_first_page(total_jobs as int),
        forall|i: int|
            1 <= i < pages@.len() ==> #[trigger] pages@[i] == spec_later_page(
                total_jobs as int,
                spec_older_pages(total_jobs as int) - i + 1,
            ),
{
    proof {
        lemma_pages_cover_all_jobs(total_jobs as int);
    }
    let first: usize = if total_jobs >= 40 {
        total_jobs % 20 + 20
    } else {
        total_jobs
    };
    let older: usize = (total_jobs - first) / 20;
    let mut pages: Vec<RootPage> = Vec::new();
    pages.push(
        RootPage {
            number: 0,
            start: 0,
            end: first,
            prev_page: if older > 0 {
                Some(older)
            } else {
                None
            },
            next_page: None,
        },
    );
    let mut k: usize = older;
    while k > 0
        invariant
            0 <= k <= older,
            first == spec_first_page_jobs(total_jobs as int),
            older == spec_older_pages(total_jobs as int),
            first + older * 20 == total_jobs,
            pages@.len() == older - k + 1,
            pages@[0] == spec_first_page(total_jobs as int),
            forall|i: int|
                1 <= i < pages@.len() ==> #[trigger] pages@[i] == spec_later_page(
                    total_jobs as int,
                    older - i + 1,
                ),
        decreases k,
    {
        assert(first + (older - k) * 20 + 20 <= first + older * 20) by (nonlinear_arith)
            requires
                1 <= k <= older,
        ;
        let start: usize = first + (older - k) * 20;
        pages.push(
            RootPage {
                number: k,
                start,
                end: start + 20,
                prev_page: if k > 1 {
                    Some(k - 1)
                } else {
                    None
                },
                next_page: if k + 1 <= older {
                    Some(k + 1)
                } else {
                    Some(0)
                },
            },
        );
        k -= 1;
    }
    pages
}

/// The file name of a page: `index.html` for the first page, and
/// `index_N.html` for page N.
pub open spec fn spec_page_name(number: usize) -> Seq<char> {
    if number == 0 {
        "index.html"@
    } else {
        "index_"@ + decimal(number as nat) + ".html"@
    }
}

pub fn page_name(number: usize) -> (name: String)
    ensures
        name@ == spec_page_name(number),
{
    if number == 0 {
        "index.html".to_owned()
    } else {
        let mut name = "index_".to_owned();
        append(&mut name, u64_to_string(number as u64).as_str());
        append(&mut name, ".html");
        name
    }
}

} // verus!
