use vstd::prelude::*;

verus! {

/// Query parameters that select one page of a listing.
pub struct Pagination {
    pub page: u64,
    pub per_page: u64,
}

impl Default for Pagination {
    /// The first page, fifteen items per page.
    fn default() -> (p: Self)
        ensures
            p.page == 1,
            p.per_page == 15,
    {
        Pagination { page: 1, per_page: 15 }
    }
}

impl Pagination {
    pub fn new(page: u64, per_page: u64) -> (p: Self)
        ensures
            p.page == page,
            p.per_page == per_page,
    {
        Pagination { page, per_page }
    }
}

/// The links of a page listing: the previous and next page, and the page
/// numbers to show, where `None` stands for a run of omitted numbers.
pub struct PageInfo {
    pub next: Option<u64>,
    pub pages: Vec<Option<u64>>,
    pub prev: Option<u64>,
}

impl Default for PageInfo {
    fn default() -> (info: Self)
        ensures
            info.next is None,
            info.pages@.len() == 0,
            info.prev is None,
    {
        PageInfo { next: None, pages: Vec::new(), prev: None }
    }
}

/// `a - b`, or 0 where that is negative.
pub open spec fn sat_sub(a: int, b: int) -> int {
    if a >= b {
        a - b
    } else {
        0
    }
}

/// `a + b`, or `u64::MAX` where that is larger.
pub open spec fn sat_add(a: int, b: int) -> int {
    if a + b > u64::MAX {
        u64::MAX as int
    } else {
        a + b
    }
}

/// What a listing is computed from: the current page (at least 1), the last
/// page, and the bounds of the three runs of page numbers that are shown.
pub struct ListingShape {
    pub page: int,
    pub max: int,
    pub left_edge: int,
    pub left_limit: int,
    pub right_limit: int,
    pub right_min: int,
}

/// The shape of the listing for the arguments of `PageInfo::new`.
pub open spec fn listing_shape(
    page: u64,
    max: u64,
    left_edge: u64,
    left_current: u64,
    right_current: u64,
    right_edge: u64,
) -> ListingShape {
    let p: int = if page < 1 {
        1
    } else {
        page as int
    };
    ListingShape {
        page: p,
        max: max as int,
        left_edge: left_edge as int,
        left_limit: sat_sub(p, sat_sub(left_current as int, 1)),
        right_limit: sat_add(p, right_current as int),
        right_min: sat_sub(max as int, right_edge as int),
    }
}

impl ListingShape {
    /// Page `num` (strictly between 1 and the last page) gets a link: it is
    /// near the start, near the current page, or near the end.
    pub open spec fn shows(self, num: int) -> bool {
        ||| num <= self.left_edge
        ||| (self.left_limit < num && num < self.right_limit)
        ||| num > self.right_min
    }

    /// The largest shown number below `n`, where 1 counts as shown.
    pub open spec fn last_shown_before(self, n: int) -> int
        decreases n,
    {
        if n <= 2 {
            1
        } else if self.shows(n - 1) {
            n - 1
        } else {
            self.last_shown_before(n - 1)
        }
    }

    /// The entries for the numbers below `n`: 1, then each shown number in
    /// increasing order, preceded by `None` where it does not follow the
    /// number listed before it.
    pub open spec fn entries_before(self, n: int) -> Seq<Option<u64>>
        decreases n,
    {
        if n <= 2 {
            seq![Some(1u64)]
        } else {
            let before = self.entries_before(n - 1);
            if !self.shows(n - 1) {
                before
            } else if self.last_shown_before(n - 1) + 1 != n - 1 {
                before.push(None).push(Some((n - 1) as u64))
            } else {
                before.push(Some((n - 1) as u64))
            }
        }
    }

    /// The whole listing: the entries below the last page, then the last page
    /// itself unless it is page 1.
    pub open spec fn pages(self) -> Seq<Option<u64>> {
        let body = self.entries_before(self.max);
        if self.max != 1 {
            body.push(Some(self.max as u64))
        } else {
            body
        }
    }

    pub open spec fn prev(self) -> Option<u64> {
        if self.page > 1 {
            Some((self.page - 1) as u64)
        } else {
            None
        }
    }

    pub open spec fn next(self) -> Option<u64> {
        if self.page < self.max {
            Some((self.page + 1) as u64)
        } else {
            None
        }
    }
}

/// Shape facts of the entries below `n`, proved by induction on `n`.
proof fn lemma_entries(s: ListingShape, n: int)
    requires
        2 <= n <= u64::MAX + 1,
    ensures
        ({
            let e = s.entries_before(n);
            let last = s.last_shown_before(n);
            &&& 1 <= last < n
            &&& e.len() >= 1
            &&& e[0] == Some(1u64)
            &&& e.last() == Some(last as u64)
            &&& forall|i: int| 0 <= i < e.len() && #[trigger] e[i] is Some ==> 1 <= e[i]->0 <= last
            &&& forall|i: int, j: int|
                0 <= i < j < e.len() && #[trigger] e[i] is Some && #[trigger] e[j] is Some
                    ==> e[i]->0 < e[j]->0
            &&& forall|k: int|
                1 < k < n ==> (s.shows(k) <==> exists|i: int|
                    0 <= i < e.len() && #[trigger] e[i] == Some(k as u64))
            &&& forall|i: int|
                0 <= i < e.len() && #[trigger] e[i] is None ==> {
                    &&& 0 < i < e.len() - 1
                    &&& e[i - 1] is Some
                    &&& e[i + 1] is Some
                    &&& e[i + 1]->0 > e[i - 1]->0 + 1
                }
            &&& forall|i: int|
                0 <= i < e.len() - 1 && #[trigger] e[i] is Some && e[i + 1] is Some
                    ==> e[i + 1]->0 == e[i]->0 + 1
        }),
    decreases n,
{
    if n > 2 {
        lemma_entries(s, n - 1);
        let prev = s.entries_before(n - 1);
        let e = s.entries_before(n);
        let last = s.last_shown_before(n - 1);
        if s.shows(n - 1) {
            assert forall|k: int| 1 < k < n implies (s.shows(k) <==> exists|i: int|
                0 <= i < e.len() && #[trigger] e[i] == Some(k as u64)) by {
                if k < n - 1 {
                    if s.shows(k) {
                        let i = choose|i: int| 0 <= i < prev.len() && #[trigger] prev[i] == Some(k as u64);
                        assert(e[i] == Some(k as u64));
                    }
                    if exists|i: int| 0 <= i < e.len() && #[trigger] e[i] == Some(k as u64) {
                        let i = choose|i: int| 0 <= i < e.len() && #[trigger] e[i] == Some(k as u64);
                        if i >= prev.len() {
                            assert(e[i] is None || e[i] == Some((n - 1) as u64));
                        } else {
                            assert(prev[i] == Some(k as u64));
                        }
                    }
                } else {
                    assert(e[e.len() - 1] == Some(k as u64));
                }
            }
        } else {
            assert forall|k: int| 1 < k < n implies (s.shows(k) <==> exists|i: int|
                0 <= i < e.len() && #[trigger] e[i] == Some(k as u64)) by {
                if k == n - 1 {
                    if exists|i: int| 0 <= i < e.len() && #[trigger] e[i] == Some(k as u64) {
                        let i = choose|i: int| 0 <= i < e.len() && #[trigger] e[i] == Some(k as u64);
                        assert(1 <= e[i]->0 <= last);
                    }
                }
            }
        }
    }
}

/// The listing starts with page 1.
pub proof fn law_listing_starts_at_first_page(s: ListingShape)
    requires
        s.max <= u64::MAX,
    ensures
        s.pages().len() >= 1,
        s.pages()[0] == Some(1u64),
{
    lemma_entries(s, if s.max < 2 { 2 } else { s.max });
}

/// The listing ends with the last page, unless that is page 1.
pub proof fn law_listing_ends_at_last_page(s: ListingShape)
    requires
        s.max <= u64::MAX,
        s.max != 1,
    ensures
        s.pages().last() == Some(s.max as u64),
{
}

/// Where there is at least one page, the page numbers of the listing
/// strictly increase.
pub proof fn law_listing_increases(s: ListingShape)
    requires
        1 <= s.max <= u64::MAX,
    ensures
        forall|i: int, j: int|
            0 <= i < j < s.pages().len() && #[trigger] s.pages()[i] is Some
                && #[trigger] s.pages()[j] is Some ==> s.pages()[i]->0 < s.pages()[j]->0,
{
    let n = if s.max < 2 { 2 } else { s.max };
    lemma_entries(s, n);
    let e = s.entries_before(n);
    assert(e == s.entries_before(s.max));
    if s.max != 1 {
        assert forall|i: int, j: int|
            0 <= i < j < s.pages().len() && #[trigger] s.pages()[i] is Some
                && #[trigger] s.pages()[j] is Some implies s.pages()[i]->0 < s.pages()[j]->0 by {
            if j == e.len() {
                assert(s.pages()[i] == e[i]);
            } else {
                assert(s.pages()[i] == e[i] && s.pages()[j] == e[j]);
            }
        }
    }
}

/// A page strictly between the first and the last page is listed exactly
/// when it is near the start, near the current page, or near the end.
pub proof fn law_listing_shows_exactly_the_window(s: ListingShape, k: int)
    requires
        s.max <= u64::MAX,
        1 < k < s.max,
    ensures
        s.shows(k) <==> exists|i: int|
            0 <= i < s.pages().len() && #[trigger] s.pages()[i] == Some(k as u64),
{
    lemma_entries(s, s.max);
    let e = s.entries_before(s.max);
    if exists|i: int| 0 <= i < s.pages().len() && #[trigger] s.pages()[i] == Some(k as u64) {
        let i = choose|i: int| 0 <= i < s.pages().len() && #[trigger] s.pages()[i] == Some(k as u64);
        if i < e.len() {
            assert(e[i] == Some(k as u64));
        }
    }
    if s.shows(k) {
        let i = choose|i: int| 0 <= i < e.len() && #[trigger] e[i] == Some(k as u64);
        assert(s.pages()[i] == Some(k as u64));
    }
}

/// A gap marker stands between two listed pages whose numbers are not
/// consecutive; it is never first, never last, and never next to another.
pub proof fn law_gap_marks_skipped_pages(s: ListingShape, i: int)
    requires
        s.max <= u64::MAX,
        0 <= i < s.pages().len(),
        s.pages()[i] is None,
    ensures
        0 < i < s.pages().len() - 1,
        s.pages()[i - 1] is Some,
        s.pages()[i + 1] is Some,
        s.pages()[i + 1]->0 > s.pages()[i - 1]->0 + 1,
{
    let n = if s.max < 2 { 2 } else { s.max };
    lemma_entries(s, n);
    let e = s.entries_before(n);
    assert(e == s.entries_before(s.max));
    if s.max != 1 {
        assert(i < e.len());
        assert(e[i] is None);
        assert(s.pages()[i - 1] == e[i - 1]);
        assert(s.pages()[i + 1] == e[i + 1]);
    }
}

/// Two listed pages next to each other, the second below the last page,
/// have consecutive numbers: nothing is skipped without a gap marker.
pub proof fn law_adjacent_pages_are_consecutive(s: ListingShape, i: int)
    requires
        s.max <= u64::MAX,
        0 <= i < s.pages().len() - 1,
        s.pages()[i] is Some,
        s.pages()[i + 1] is Some,
        s.pages()[i + 1]->0 < s.max,
    ensures
        s.pages()[i + 1]->0 == s.pages()[i]->0 + 1,
{
    let n = if s.max < 2 { 2 } else { s.max };
    lemma_entries(s, n);
    let e = s.entries_before(n);
    assert(e == s.entries_before(s.max));
    if s.max != 1 {
        if i + 1 == e.len() {
            assert(s.pages()[i + 1] == Some(s.max as u64));
        } else {
            assert(s.pages()[i] == e[i] && s.pages()[i + 1] == e[i + 1]);
        }
    }
}

/// A current page strictly between the first and the last is listed when
/// `left_current` is at least 2 and `right_current` at least 1.
pub proof fn law_current_page_is_listed(
    page: u64,
    max: u64,
    left_edge: u64,
    left_current: u64,
    right_current: u64,
    right_edge: u64,
)
    requires
        1 < page < max,
        left_current >= 2,
        right_current >= 1,
    ensures
        ({
            let s = listing_shape(page, max, left_edge, left_current, right_current, right_edge);
            exists|i: int| 0 <= i < s.pages().len() && #[trigger] s.pages()[i] == Some(page)
        }),
{
    let s = listing_shape(page, max, left_edge, left_current, right_current, right_edge);
    assert(s.shows(page as int));
    law_listing_shows_exactly_the_window(s, page as int);
}

/// The previous page is one before the current page (at least 1), and the
/// next page one after it, where those exist.
pub proof fn law_prev_next_neighbours(s: ListingShape)
    requires
        1 <= s.page <= u64::MAX,
        s.max <= u64::MAX,
    ensures
        s.prev() is Some <==> s.page > 1,
        s.prev() is Some ==> s.prev()->0 + 1 == s.page,
        s.next() is Some <==> s.page < s.max,
        s.next() is Some ==> s.next()->0 == s.page + 1,
{
}

/// Which pages strictly between the first and the last are listed, in terms
/// of the arguments of `PageInfo::new`: those up to `left_edge`, those among
/// the last `right_edge` pages, and those in the window around the current
/// page `p` (at least 1) that reaches from `p + 2 - left_current` (from
/// `p + 1` where `left_current` is 0) to `p + right_current - 1`.
pub proof fn law_listed_pages_by_arguments(
    page: u64,
    max: u64,
    left_edge: u64,
    left_current: u64,
    right_current: u64,
    right_edge: u64,
    k: int,
)
    requires
        1 < k < max,
    ensures
        ({
            let pages = listing_shape(page, max, left_edge, left_current, right_current, right_edge).pages();
            let p: int = if page < 1 { 1 } else { page as int };
            (exists|i: int| 0 <= i < pages.len() && #[trigger] pages[i] == Some(k as u64)) <==> {
                ||| k <= left_edge
                ||| k + right_edge > max
                ||| (k < p + right_current && ((left_current == 0 && k > p) || (left_current >= 1
                    && k + left_current > p + 1)))
            }
        }),
{
    let s = listing_shape(page, max, left_edge, left_current, right_current, right_edge);
    law_listing_shows_exactly_the_window(s, k);
}

/// The listing of `PageInfo::new` starts with page 1 and, unless `max` is 1,
/// ends with page `max`.
pub proof fn law_listing_ends_by_arguments(
    page: u64,
    max: u64,
    left_edge: u64,
    left_current: u64,
    right_current: u64,
    right_edge: u64,
)
    ensures
        ({
            let pages = listing_shape(page, max, left_edge, left_current, right_current, right_edge).pages();
            &&& pages.len() >= 1
            &&& pages[0] == Some(1u64)
            &&& max != 1 ==> pages.last() == Some(max)
            &&& max == 1 ==> pages =~= seq![Some(1u64)]
        }),
{
    let s = listing_shape(page, max, left_edge, left_current, right_current, right_edge);
    law_listing_starts_at_first_page(s);
}

/// The previous and next page of `PageInfo::new`, in terms of its arguments:
/// a page of 0 counts as page 1; there is a previous page after page 1 and a
/// next page before page `max`.
pub proof fn law_prev_next_by_arguments(
    page: u64,
    max: u64,
    left_edge: u64,
    left_current: u64,
    right_current: u64,
    right_edge: u64,
)
    ensures
        ({
            let s = listing_shape(page, max, left_edge, left_current, right_current, right_edge);
            &&& s.prev() == if page > 1 { Some((page - 1) as u64) } else { None }
            &&& s.next() == if page == 0 {
                if 1 < max { Some(2u64) } else { None }
            } else if page < max {
                Some((page + 1) as u64)
            } else {
                None
            }
        }),
{
}

impl PageInfo {
    /// Builds the listing for `page` out of `max` pages: page 1, the pages
    /// up to `left_edge`, the pages after `page + 1 - left_current` and
    /// before `page + right_current`, the pages after `max - right_edge`, and
    /// page `max`.
    pub fn new(
        page: u64,
        max: u64,
        left_edge: u64,
        left_current: u64,
        right_current: u64,
        right_edge: u64,
    ) -> (info: Self)
        ensures
            ({
                let s = listing_shape(page, max, left_edge, left_current, right_current, right_edge);
                &&& info.pages@ == s.pages()
                &&& info.prev == s.prev()
                &&& info.next == s.next()
            }),
    {
        let ghost s = listing_shape(page, max, left_edge, left_current, right_current, right_edge);
        let mut pages: Vec<Option<u64>> = Vec::with_capacity(10);
        let mut last: u64 = 1;
        let page: u64 = if page > 1 {
            page
        } else {
            1
        };
        let prev = if page > 1 {
            Some(page - 1)
        } else {
            None
        };
        let next = if page < max {
            Some(page + 1)
        } else {
            None
        };
        let left_limit: u64 = page.saturating_sub(left_current.saturating_sub(1));
        let right_min: u64 = max.saturating_sub(right_edge);
        let right_limit: u64 = page.saturating_add(right_current);

        pages.push(Some(1));

        let mut num: u64 = 2;
        while num < max
            invariant
                2 <= num,
                num <= max || num == 2,
                1 <= last < num,
                s == listing_shape(page, max, left_edge, left_current, right_current, right_edge),
                s.page == page,
                s.left_limit == left_limit,
                s.right_min == right_min,
                s.right_limit == right_limit,
                last == s.last_shown_before(num as int),
                pages@ == s.entries_before(num as int),
            decreases max - num,
        {
            if num <= left_edge || (num > left_limit && num < right_limit) || num > right_min {
                if last.saturating_add(1) != num {
                    pages.push(None);
                }
                pages.push(Some(num));
                last = num;
            }
            num += 1;
        }

        if max != 1 {
            pages.push(Some(max));
        }

        PageInfo { next, pages, prev }
    }
}

/// Whether `num` is the current page.
pub fn check_page(current_page: &u64, num: &u64) -> (same: bool)
    ensures
        same == (*current_page == *num),
{
    *current_page == *num
}

} // verus!
