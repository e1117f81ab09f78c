//! Which page links a pager shows: every page when there are at most
//! seven, otherwise the first and last page, the current page with its
//! neighbours, and an ellipsis wherever pages are left out.
use vstd::prelude::*;

verus! {

/// One entry of the pager.
#[derive(Debug, Clone, Copy, PartialEq, Eq, Structural)]
pub enum PageNumber {
    Page(i64),
    Ellipsis,
}

/// Pages `lo..=hi`, none when `lo > hi`.
pub open spec fn page_run(lo: int, hi: int) -> Seq<PageNumber> {
    if lo > hi {
        Seq::empty()
    } else {
        Seq::new((hi - lo + 1) as nat, |k: int| PageNumber::Page((lo + k) as i64))
    }
}

pub open spec fn max_int(a: int, b: int) -> int {
    if a >= b {
        a
    } else {
        b
    }
}

pub open spec fn min_int(a: int, b: int) -> int {
    if a <= b {
        a
    } else {
        b
    }
}

/// The entries of the pager for page `current` of `total`.
pub open spec fn page_numbers(current: int, total: int) -> Seq<PageNumber> {
    if total <= 7 {
        page_run(1, total)
    } else {
        let start = max_int(current - 1, 2);
        let end = min_int(current + 1, total - 1);
        seq![PageNumber::Page(1)] + (if current > 3 {
            seq![PageNumber::Ellipsis]
        } else {
            Seq::empty()
        }) + page_run(start, end) + (if current < total - 2 {
            seq![PageNumber::Ellipsis]
        } else {
            Seq::empty()
        }) + seq![PageNumber::Page(total as i64)]
    }
}

/// The entries of the pager for page `current` of `total`.
pub fn build_page_numbers(current: i64, total: i64) -> (r: Vec<PageNumber>)
    requires
        i64::MIN < current < i64::MAX,
    ensures
        r@ == page_numbers(current as int, total as int),
{
    let mut pages: Vec<PageNumber> = Vec::new();
    if total <= 7 {
        let mut p: i64 = 1;
        while p <= total
            invariant
                1 <= p,
                total <= 7,
                p <= total + 1 || total < 1,
                total < 1 ==> p == 1,
                pages@ == page_run(1, p - 1),
            decreases total + 1 - p,
        {
            pages.push(PageNumber::Page(p));
            assert(page_run(1, p as int) =~= page_run(1, p - 1).push(PageNumber::Page(p)));
            p += 1;
        }
        if total < 1 {
            assert(page_run(1, total as int) =~= page_run(1, 0));
        }
        return pages;
    }
    pages.push(PageNumber::Page(1));
    if current > 3 {
        pages.push(PageNumber::Ellipsis);
    }
    let ghost head = pages@;
    let start: i64 = if current - 1 >= 2 {
        current - 1
    } else {
        2
    };
    let end: i64 = if current + 1 <= total - 1 {
        current + 1
    } else {
        total - 1
    };
    let mut i: i64 = start;
    while i <= end
        invariant
            start <= i,
            i <= end + 1 || end < start,
            end < start ==> i == start,
            end <= total - 1,
            total > 7,
            pages@ == head + page_run(start as int, i - 1),
        decreases end + 1 - i,
    {
        pages.push(PageNumber::Page(i));
        assert(page_run(start as int, i as int) =~= page_run(start as int, i - 1).push(
            PageNumber::Page(i),
        ));
        i += 1;
    }
    if end < start {
        assert(page_run(start as int, end as int) =~= page_run(start as int, start - 1));
    }
    if current < total - 2 {
        pages.push(PageNumber::Ellipsis);
    }
    pages.push(PageNumber::Page(total));
    proof {
        let e1: Seq<PageNumber> = if current > 3 {
            seq![PageNumber::Ellipsis]
        } else {
            Seq::empty()
        };
        let e2: Seq<PageNumber> = if current < total - 2 {
            seq![PageNumber::Ellipsis]
        } else {
            Seq::empty()
        };
        assert(head =~= seq![PageNumber::Page(1)] + e1);
        assert(pages@ =~= seq![PageNumber::Page(1)] + e1 + page_run(start as int, end as int) + e2
            + seq![PageNumber::Page(total)]);
    }
    pages
}

/// The pager is shown only when there is more than one page.
pub fn shows_pager(total_pages: i64) -> (r: bool)
    ensures
        r == (total_pages > 1),
{
    total_pages > 1
}

/// The page that "previous" leads to, if any.
pub fn previous_page(current: i64) -> (r: Option<i64>)
    ensures
        r == (if current > 1 {
            Some((current - 1) as i64)
        } else {
            None
        }),
{
    if current > 1 {
        Some(current - 1)
    } else {
        None
    }
}

/// The page that "next" leads to, if any.
pub fn next_page(current: i64, total: i64) -> (r: Option<i64>)
    ensures
        r == (if current < total {
            Some((current + 1) as i64)
        } else {
            None
        }),
{
    if current < total {
        Some(current + 1)
    } else {
        None
    }
}

// ---------------------------------------------------------------------
// Laws
// ---------------------------------------------------------------------

/// The number a page entry shows.
pub open spec fn page_of(p: PageNumber) -> int {
    match p {
        PageNumber::Page(n) => n as int,
        PageNumber::Ellipsis => 0,
    }
}

/// The pager never has more than seven entries.
pub proof fn law_pager_is_short(current: int, total: int)
    requires
        i64::MIN < current < i64::MAX,
        total <= i64::MAX,
    ensures
        page_numbers(current, total).len() <= 7,
{
    if total > 7 {
        let start = max_int(current - 1, 2);
        let end = min_int(current + 1, total - 1);
        assert(page_run(start, end).len() <= 3);
    }
}

/// With more than one page the pager begins at page 1 and ends at the last
/// page.
pub proof fn law_pager_ends(current: int, total: int)
    requires
        1 <= total <= i64::MAX,
    ensures
        page_numbers(current, total).len() >= 1,
        page_numbers(current, total)[0] == PageNumber::Page(1),
        page_numbers(current, total).last() == PageNumber::Page(total as i64),
{
}

/// Page numbers appear in increasing order, each within `1..=total`.
pub proof fn law_pages_increase(current: int, total: int, i: int, j: int)
    requires
        i64::MIN < current < i64::MAX,
        1 <= total <= i64::MAX,
        0 <= i < j < page_numbers(current, total).len(),
        page_numbers(current, total)[i] is Page,
        page_numbers(current, total)[j] is Page,
    ensures
        1 <= page_of(page_numbers(current, total)[i]) < page_of(page_numbers(current, total)[j])
            <= total,
{
    let s = page_numbers(current, total);
    if total > 7 {
        let start = max_int(current - 1, 2);
        let end = min_int(current + 1, total - 1);
        let e1: Seq<PageNumber> = if current > 3 {
            seq![PageNumber::Ellipsis]
        } else {
            Seq::empty()
        };
        let run = page_run(start, end);
        let k1 = 1 + e1.len();
        let k2 = k1 + run.len();
        assert forall|m: int| 0 <= m < s.len() && s[m] is Page implies (m == 0 && page_of(s[m])
            == 1) || (k1 <= m < k2 && page_of(s[m]) == start + (m - k1)) || (m == s.len() - 1
            && page_of(s[m]) == total) by {
            if k1 <= m < k2 {
                assert(s[m] == run[m - k1]);
            }
        }
    }
}

/// A current page within `1..=total` is always one of the entries.
pub proof fn law_current_page_shown(current: int, total: int)
    requires
        1 <= current <= total <= i64::MAX,
    ensures
        page_numbers(current, total).contains(PageNumber::Page(current as i64)),
{
    let s = page_numbers(current, total);
    if total <= 7 {
        assert(s[current - 1] == PageNumber::Page(current as i64));
    } else if current == 1 {
        assert(s[0] == PageNumber::Page(1));
    } else if current == total {
        assert(s[s.len() - 1] == PageNumber::Page(total as i64));
    } else {
        let start = max_int(current - 1, 2);
        let e1: Seq<PageNumber> = if current > 3 {
            seq![PageNumber::Ellipsis]
        } else {
            Seq::empty()
        };
        let k = 1 + e1.len() + (current - start);
        assert(s[k] == PageNumber::Page(current as i64));
    }
}

/// An ellipsis is never the first or the last entry, and two never stand
/// side by side.
pub proof fn law_ellipsis_between_pages(current: int, total: int, i: int)
    requires
        i64::MIN < current < i64::MAX,
        1 <= total <= i64::MAX,
        0 <= i < page_numbers(current, total).len(),
        page_numbers(current, total)[i] is Ellipsis,
    ensures
        0 < i < page_numbers(current, total).len() - 1,
        page_numbers(current, total)[i - 1] is Page,
        page_numbers(current, total)[i + 1] is Page,
{
    let s = page_numbers(current, total);
    if total > 7 {
        let start = max_int(current - 1, 2);
        let end = min_int(current + 1, total - 1);
        let e1: Seq<PageNumber> = if current > 3 {
            seq![PageNumber::Ellipsis]
        } else {
            Seq::empty()
        };
        let run = page_run(start, end);
        let k1 = 1 + e1.len();
        assert(current > 3 && current < total - 2 ==> start <= end);
        assert forall|m: int| k1 <= m < k1 + run.len() implies s[m] is Page by {
            assert(s[m] == run[m - k1]);
        }
    }
}

/// The pager leaves no page out unseen: two pages side by side are
/// consecutive numbers, and an ellipsis always stands for at least one
/// page left out between its neighbours. So every page `1..=total` is
/// either shown or hidden behind an ellipsis.
pub proof fn law_pager_no_silent_gaps(current: int, total: int, i: int)
    requires
        i64::MIN < current < i64::MAX,
        1 <= total <= i64::MAX,
        0 <= i < page_numbers(current, total).len() - 1,
    ensures
        page_numbers(current, total)[i] is Page && page_numbers(current, total)[i + 1] is Page
            ==> page_of(page_numbers(current, total)[i + 1]) == page_of(
            page_numbers(current, total)[i],
        ) + 1,
        page_numbers(current, total)[i + 1] is Ellipsis ==> page_numbers(current, total)[i] is Page
            && page_numbers(current, total)[i + 2] is Page && page_of(
            page_numbers(current, total)[i + 2],
        ) >= page_of(page_numbers(current, total)[i]) + 2,
{
    let s = page_numbers(current, total);
    if total <= 7 {
        assert(s[i] == PageNumber::Page((1 + i) as i64));
        assert(s[i + 1] == PageNumber::Page((2 + i) as i64));
    } else {
        let start = max_int(current - 1, 2);
        let end = min_int(current + 1, total - 1);
        let e1: Seq<PageNumber> = if current > 3 {
            seq![PageNumber::Ellipsis]
        } else {
            Seq::empty()
        };
        let e2: Seq<PageNumber> = if current < total - 2 {
            seq![PageNumber::Ellipsis]
        } else {
            Seq::empty()
        };
        let run = page_run(start, end);
        let k1: int = 1 + e1.len() as int;
        let k2: int = k1 + run.len() as int;
        let last: int = k2 + e2.len() as int;
        assert(s.len() == last + 1);
        assert(s[0] == PageNumber::Page(1));
        assert(s[last] == PageNumber::Page(total as i64));
        assert forall|m: int| k1 <= m < k2 implies s[m] == PageNumber::Page((start + (m - k1)) as i64) by {
            assert(s[m] == run[m - k1]);
        }
        if e1.len() == 1 {
            assert(s[1] == PageNumber::Ellipsis);
        }
        if e2.len() == 1 {
            assert(s[k2] == PageNumber::Ellipsis);
        }
        if run.len() > 0 {
            assert(end >= start);
            assert(run.len() == end - start + 1);
        }
        // the entry after i, and the one after that
        if i + 1 == k1 && run.len() > 0 {
            assert(s[i + 1] == PageNumber::Page(start as i64));
        }
        if i + 2 == k1 && run.len() > 0 {
            assert(s[i + 2] == PageNumber::Page(start as i64));
        }
        if i + 1 < k2 && i >= k1 {
            assert(s[i + 1] == PageNumber::Page((start + (i + 1 - k1)) as i64));
        }
        if i == k2 - 1 && run.len() > 0 {
            assert(s[i] == PageNumber::Page(end as i64));
        }
        if i + 1 == k2 && run.len() > 0 {
            assert(s[i] == PageNumber::Page(end as i64));
        }
    }
}

} // verus!
