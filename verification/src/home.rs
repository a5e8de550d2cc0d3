//! The home page's "continue watching" row: the pool of server history it
//! draws from, when that pool is refreshed or grown, and its pages of ten.

use vstd::prelude::*;
use crate::history::{dated, merge_entries, newest_first, upsert_all, ServerEntry};
use crate::views::last_page_spec;

verus! {

/// Cards on one page of the row.
pub const PER_PAGE: usize = 10;

/// History pages fetched at a time for the pool.
pub const POOL_STEP: u32 = 3;

/// Seconds after which the pool is read again.
pub const STALE_SECS: u64 = 300;

/// The server history pool of the continue row.
pub struct HomeHistory<T> {
    pub server: Vec<ServerEntry<T>>,
    /// The number of entries the server reports.
    pub total: u64,
    /// How many history pages the pool holds.
    pub pool_pages: u32,
    /// The page of the row shown.
    pub cont_page: u32,
    /// The pool was requested (and not refused since).
    pub loaded: bool,
    /// When it was last requested, in seconds since the epoch.
    pub loaded_at: u64,
    /// A request growing the pool is under way.
    pub more_loading: bool,
}

/// What a click on the row's next button does.
#[derive(Clone, Copy, Debug, PartialEq, Eq, Structural)]
pub enum NextPage {
    /// The next page is in the pool: it shows at once.
    Show,
    /// The pool is used up but the server has more: grow it, then show.
    Grow,
    /// Nothing further.
    Stay,
}

/// The number of pages the row has for a pool (at least one).
pub open spec fn page_count(pool: nat) -> nat {
    let n = (pool + 9) / 10;
    if n < 1 {
        1
    } else {
        n as nat
    }
}

impl<T> HomeHistory<T> {
    /// An empty pool, never requested.
    pub fn new() -> (h: HomeHistory<T>)
        ensures
            h.server@.len() == 0,
            h.total == 0,
            h.pool_pages == POOL_STEP,
            h.cont_page == 0,
            !h.loaded,
            h.loaded_at == 0,
            !h.more_loading,
    {
        HomeHistory {
            server: Vec::new(),
            total: 0,
            pool_pages: POOL_STEP,
            cont_page: 0,
            loaded: false,
            loaded_at: 0,
            more_loading: false,
        }
    }

    /// Whether the pool is read now (its first three pages): only when
    /// signed in, and when it was never read or is five minutes old. A
    /// read is marked at once, so that it is not started twice.
    pub fn refresh(&mut self, logged_in: bool, now_secs: u64) -> (r: bool)
        ensures
            r == (logged_in && (!old(self).loaded || (if now_secs >= old(self).loaded_at {
                now_secs - old(self).loaded_at
            } else {
                0
            }) >= STALE_SECS)),
            r ==> final(self).loaded && final(self).loaded_at == now_secs,
            !r ==> final(self).loaded == old(self).loaded && final(self).loaded_at == old(
                self,
            ).loaded_at,
            final(self).server == old(self).server,
            final(self).total == old(self).total,
            final(self).pool_pages == old(self).pool_pages,
            final(self).cont_page == old(self).cont_page,
            final(self).more_loading == old(self).more_loading,
    {
        if !logged_in {
            return false;
        }
        let age = if now_secs >= self.loaded_at {
            now_secs - self.loaded_at
        } else {
            0
        };
        if self.loaded && age < STALE_SECS {
            return false;
        }
        self.loaded = true;
        self.loaded_at = now_secs;
        true
    }

    /// The top of the history arrived. A fresh read replaces the pool and
    /// goes back to the first page; a refresh merges into it (the newer
    /// entry of a title wins) and keeps at least three pages. A failure
    /// lets the next refresh try again.
    pub fn history_arrived(&mut self, res: Result<(Vec<ServerEntry<T>>, u64), String>, reset: bool)
        ensures
            match res {
                Ok((items, total)) => {
                    &&& final(self).total == total
                    &&& if reset {
                        &&& final(self).server@ == items@
                        &&& final(self).pool_pages == POOL_STEP
                        &&& final(self).cont_page == 0
                    } else {
                        &&& newest_first(final(self).server@)
                        &&& final(self).server@.len() == upsert_all(old(self).server@, items@).len()
                        &&& forall|d: u64| #[trigger] dated(final(self).server@, d) == dated(
                            upsert_all(old(self).server@, items@),
                            d,
                        )
                        &&& final(self).pool_pages == if old(self).pool_pages > POOL_STEP {
                            old(self).pool_pages
                        } else {
                            POOL_STEP
                        }
                        &&& final(self).cont_page == old(self).cont_page
                    }
                    &&& final(self).loaded == old(self).loaded
                },
                Err(_) => {
                    &&& !final(self).loaded
                    &&& final(self).server == old(self).server
                    &&& final(self).total == old(self).total
                    &&& final(self).pool_pages == old(self).pool_pages
                    &&& final(self).cont_page == old(self).cont_page
                },
            },
            final(self).loaded_at == old(self).loaded_at,
            final(self).more_loading == old(self).more_loading,
    {
        match res {
            Ok((items, total)) => {
                if reset {
                    self.server = items;
                    self.pool_pages = POOL_STEP;
                    self.cont_page = 0;
                } else {
                    let mut cur: Vec<ServerEntry<T>> = Vec::new();
                    std::mem::swap(&mut cur, &mut self.server);
                    self.server = merge_entries(cur, items);
                    if self.pool_pages < POOL_STEP {
                        self.pool_pages = POOL_STEP;
                    }
                }
                self.total = total;
            },
            Err(_) => {
                self.loaded = false;
            },
        }
    }

    /// The server has entries the pool does not hold yet.
    pub fn more_available(&self, logged_in: bool) -> (r: bool)
        ensures
            r == (logged_in && self.server@.len() < self.total),
    {
        logged_in && (self.server.len() as u64) < self.total
    }

    /// Grows the pool by the next three history pages: gives the first
    /// page to read and the pool size after, unless signed out or already
    /// growing.
    pub fn more(&mut self, logged_in: bool) -> (r: Option<(u32, u32)>)
        requires
            old(self).pool_pages <= u32::MAX - POOL_STEP,
        ensures
            match r {
                Some((from, new_pool)) => {
                    &&& logged_in && !old(self).more_loading
                    &&& from == old(self).pool_pages
                    &&& new_pool == old(self).pool_pages + POOL_STEP
                    &&& final(self).more_loading
                },
                None => (!logged_in || old(self).more_loading) && final(self).more_loading == old(
                    self,
                ).more_loading,
            },
            final(self).server == old(self).server,
            final(self).pool_pages == old(self).pool_pages,
            final(self).cont_page == old(self).cont_page,
    {
        if !logged_in || self.more_loading {
            return None;
        }
        self.more_loading = true;
        Some((self.pool_pages, self.pool_pages + POOL_STEP))
    }

    /// The grown pool arrived: merged in, with its new size. On failure
    /// the row goes back to its last filled page (for a row of `pool`
    /// entries) and the error is shown.
    pub fn more_arrived(
        &mut self,
        new_pool: u32,
        res: Result<(Vec<ServerEntry<T>>, u64), String>,
        pool: usize,
    ) -> (err: Option<String>)
        ensures
            !final(self).more_loading,
            match res {
                Ok((items, total)) => {
                    &&& err is None
                    &&& newest_first(final(self).server@)
                    &&& final(self).server@.len() == upsert_all(old(self).server@, items@).len()
                    &&& forall|d: u64| #[trigger] dated(final(self).server@, d) == dated(
                        upsert_all(old(self).server@, items@),
                        d,
                    )
                    &&& final(self).total == total
                    &&& final(self).pool_pages == new_pool
                    &&& final(self).cont_page == old(self).cont_page
                },
                Err(e) => {
                    &&& err == Some(e)
                    &&& final(self).server == old(self).server
                    &&& final(self).total == old(self).total
                    &&& final(self).pool_pages == old(self).pool_pages
                    &&& final(self).cont_page == if old(self).cont_page > last_page_spec(
                        pool as nat,
                    ) {
                        last_page_spec(pool as nat) as u32
                    } else {
                        old(self).cont_page
                    }
                },
            },
    {
        self.more_loading = false;
        match res {
            Ok((items, total)) => {
                let mut cur: Vec<ServerEntry<T>> = Vec::new();
                std::mem::swap(&mut cur, &mut self.server);
                self.server = merge_entries(cur, items);
                self.total = total;
                self.pool_pages = new_pool;
                None
            },
            Err(e) => {
                self.cont_page = crate::views::clamp_cont_page(self.cont_page, pool);
                Some(e)
            },
        }
    }

    /// Whether the previous and next buttons of the row are enabled for a
    /// pool of `pool` entries.
    pub fn buttons(&self, pool: usize, logged_in: bool) -> (r: (bool, bool))
        ensures
            r == (self.cont_page > 0, self.cont_page + 1 < page_count(pool as nat) || (logged_in
                && self.server@.len() < self.total)),
    {
        let pages: usize = if pool == 0 {
            1
        } else {
            (pool - 1) / PER_PAGE + 1
        };
        assert(pages == page_count(pool as nat));
        let more = self.more_available(logged_in);
        (self.cont_page > 0, (self.cont_page as usize) < pages && pages - (self.cont_page as usize)
            > 1 || more)
    }

    /// The previous page, if there is one.
    pub fn prev_clicked(&mut self) -> (moved: bool)
        ensures
            moved == (old(self).cont_page > 0),
            final(self).cont_page == if moved {
                (old(self).cont_page - 1) as u32
            } else {
                old(self).cont_page
            },
            final(self).server == old(self).server,
    {
        if self.cont_page > 0 {
            self.cont_page = self.cont_page - 1;
            true
        } else {
            false
        }
    }

    /// The next page: shown at once when the pool holds it, else the pool
    /// is grown when the server has more.
    pub fn next_clicked(&mut self, pool: usize, more_avail: bool) -> (r: NextPage)
        requires
            old(self).cont_page < u32::MAX,
        ensures
            r == if (old(self).cont_page + 1) * 10 < pool {
                NextPage::Show
            } else if more_avail {
                NextPage::Grow
            } else {
                NextPage::Stay
            },
            final(self).cont_page == if r == NextPage::Stay {
                old(self).cont_page
            } else {
                (old(self).cont_page + 1) as u32
            },
            final(self).server == old(self).server,
    {
        let p = self.cont_page as u64;
        if (p + 1) * 10 < pool as u64 {
            self.cont_page = self.cont_page + 1;
            NextPage::Show
        } else if more_avail {
            self.cont_page = self.cont_page + 1;
            NextPage::Grow
        } else {
            NextPage::Stay
        }
    }

    /// The entries of the page shown, as a range of the pool; none while
    /// that page is still being read.
    pub fn page_range(&self, pool: usize) -> (r: Option<(usize, usize)>)
        ensures
            match r {
                Some((a, b)) => a == self.cont_page * 10 && a < pool && b == if a + 10 < pool {
                    a + 10
                } else {
                    pool as int
                },
                None => self.cont_page * 10 >= pool,
            },
    {
        let p = self.cont_page as u64;
        if p * 10 >= pool as u64 {
            return None;
        }
        let a = (p * 10) as usize;
        let b = if pool - a > PER_PAGE {
            a + PER_PAGE
        } else {
            pool
        };
        Some((a, b))
    }
}

} // verus!
