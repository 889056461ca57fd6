//! The view model the panel renders: the selected account's summary and
//! the settings shown, gathered from the configuration.

use vstd::prelude::*;

use crate::chars::{chars_of, opt_str_view, opt_view};
use crate::panel::Platform;
use crate::peak::PeakRange;
use crate::views::{FetchError, NewsItem};

verus! {

/// A configured account.
#[derive(Debug, Clone)]
pub struct Account {
    pub id: String,
    pub name: String,
    pub platform: Platform,
    pub team: bool,
}

/// Display summary of the selected account.
#[derive(Debug, Clone, Copy)]
pub struct AccountView<'a> {
    pub index: usize,
    pub name: &'a str,
    pub platform: Platform,
    pub team: bool,
}

/// Index of the first account at or after `k` whose id is `id`.
pub open spec fn first_with_id(accounts: Seq<Account>, id: Seq<char>, k: int) -> Option<int>
    decreases accounts.len() - k,
{
    if k < 0 || k >= accounts.len() {
        None
    } else if accounts[k].id@ == id {
        Some(k)
    } else {
        first_with_id(accounts, id, k + 1)
    }
}

/// The account the panel shows: the first whose id is the selected id,
/// otherwise the first account; none without accounts.
pub open spec fn selected_index(accounts: Seq<Account>, selected: Option<Seq<char>>) -> Option<int> {
    let found = match selected {
        Some(id) => first_with_id(accounts, id, 0),
        None => None,
    };
    match found {
        Some(i) => Some(i),
        None => if accounts.len() > 0 {
            Some(0)
        } else {
            None
        },
    }
}

/// Whether two strings hold the same characters.
pub fn same_text(a: &str, b: &str) -> (r: bool)
    ensures
        r == (a@ == b@),
{
    let x = chars_of(a);
    let y = chars_of(b);
    if x.len() != y.len() {
        return false;
    }
    let mut i: usize = 0;
    while i < x.len()
        invariant
            x@.len() == y@.len(),
            x@ == a@,
            y@ == b@,
            i <= x@.len(),
            forall|j: int| 0 <= j < i ==> x@[j] == y@[j],
        decreases x@.len() - i,
    {
        if x[i] != y[i] {
            assert(x@[i as int] != y@[i as int]);
            return false;
        }
        i = i + 1;
    }
    assert(x@ =~= y@);
    true
}

impl<'a> AccountView<'a> {
    /// The summary of the account the panel shows: the one whose id is
    /// `selected`, else the first; `None` without accounts.
    pub fn select(accounts: &'a [Account], selected: Option<&str>) -> (r: Option<AccountView<'a>>)
        ensures
            match selected_index(
                accounts@,
                opt_str_view(selected),
            ) {
                Some(i) => r matches Some(v) && v.index == i && v.name@ == accounts@[i].name@
                    && v.platform == accounts@[i].platform && v.team == accounts@[i].team,
                None => r is None,
            },
    {
        let mut found: Option<usize> = None;
        if let Some(sel) = selected {
            let mut i: usize = 0;
            while i < accounts.len() && found.is_none()
                invariant
                    i <= accounts@.len(),
                    found is None ==> first_with_id(accounts@, sel@, 0) == first_with_id(
                        accounts@,
                        sel@,
                        i as int,
                    ),
                    found matches Some(j) ==> j < accounts@.len() && first_with_id(accounts@, sel@, 0)
                        == Some(j as int),
                decreases accounts@.len() - i + if found is None { 1int } else { 0int },
            {
                if same_text(accounts[i].id.as_str(), sel) {
                    found = Some(i);
                } else {
                    i = i + 1;
                }
            }
            if found.is_none() {
                assert(first_with_id(accounts@, sel@, i as int) == None::<int>);
            }
        }
        let index = match found {
            Some(i) => i,
            None => {
                if accounts.len() == 0 {
                    return None;
                }
                0
            },
        };
        let a = &accounts[index];
        Some(AccountView { index, name: a.name.as_str(), platform: a.platform, team: a.team })
    }
}

/// The general settings the panel shows, as configured.
#[derive(Debug, Clone)]
pub struct General {
    pub poll_interval_secs: u64,
    pub language: Option<String>,
    pub appearance: Option<String>,
    pub notify_threshold_enabled: bool,
    pub notify_threshold_percent: u8,
    pub notify_reset_5h_enabled: bool,
    pub notify_reset_weekly_enabled: bool,
    pub peak_start: String,
    pub peak_end: String,
    pub last_news_read: Option<String>,
}

/// Everything a frame of the panel reads, borrowed from the application
/// state.
#[derive(Debug, Clone, Copy)]
pub struct PanelModel<'a> {
    pub error: Option<&'a FetchError>,
    pub account: Option<AccountView<'a>>,
    pub accounts_count: usize,
    pub accounts: &'a [Account],
    pub poll_interval_secs: u64,
    pub language: Option<&'a str>,
    pub appearance: Option<&'a str>,
    pub autostart: bool,
    pub threshold_enabled: bool,
    pub threshold_percent: u8,
    pub reset_5h_enabled: bool,
    pub reset_weekly_enabled: bool,
    pub update_available: bool,
    pub peak_range: PeakRange,
    pub peak_start_raw: &'a str,
    pub peak_end_raw: &'a str,
    pub news: Option<&'a [NewsItem]>,
    pub last_news_read: Option<&'a str>,
}

/// Borrows the contents of an optional string.
fn as_deref(s: &Option<String>) -> (r: Option<&str>)
    ensures
        opt_str_view(r) == opt_view(*s),
{
    match s {
        Some(x) => Some(x.as_str()),
        None => None,
    }
}

impl<'a> PanelModel<'a> {
    /// Gathers a frame's model: the selected account (by id, else the
    /// first), the account list and the general settings, the latest fetch
    /// error, the release news, and the facts the application tracks
    /// itself (autostart, a newer release, the resolved peak range).
    pub fn from_app(
        general: &'a General,
        accounts: &'a [Account],
        selected: Option<&str>,
        error: Option<&'a FetchError>,
        news: Option<&'a [NewsItem]>,
        autostart: bool,
        update_available: bool,
        peak_range: PeakRange,
    ) -> (m: Self)
        ensures
            match selected_index(accounts@, opt_str_view(selected)) {
                Some(i) => m.account matches Some(v) && v.index == i && v.name@ == accounts@[i].name@
                    && v.platform == accounts@[i].platform && v.team == accounts@[i].team,
                None => m.account is None,
            },
            m.accounts_count == accounts@.len(),
            m.accounts@ == accounts@,
            m.error == error,
            m.news == news,
            m.poll_interval_secs == general.poll_interval_secs,
            opt_str_view(m.language) == opt_view(general.language),
            opt_str_view(m.appearance) == opt_view(general.appearance),
            m.autostart == autostart,
            m.threshold_enabled == general.notify_threshold_enabled,
            m.threshold_percent == general.notify_threshold_percent,
            m.reset_5h_enabled == general.notify_reset_5h_enabled,
            m.reset_weekly_enabled == general.notify_reset_weekly_enabled,
            m.update_available == update_available,
            m.peak_range == peak_range,
            m.peak_start_raw@ == general.peak_start@,
            m.peak_end_raw@ == general.peak_end@,
            opt_str_view(m.last_news_read) == opt_view(general.last_news_read),
    {
        PanelModel {
            error,
            account: AccountView::select(accounts, selected),
            accounts_count: accounts.len(),
            accounts,
            poll_interval_secs: general.poll_interval_secs,
            language: as_deref(&general.language),
            appearance: as_deref(&general.appearance),
            autostart,
            threshold_enabled: general.notify_threshold_enabled,
            threshold_percent: general.notify_threshold_percent,
            reset_5h_enabled: general.notify_reset_5h_enabled,
            reset_weekly_enabled: general.notify_reset_weekly_enabled,
            update_available,
            peak_range,
            peak_start_raw: general.peak_start.as_str(),
            peak_end_raw: general.peak_end.as_str(),
            news,
            last_news_read: as_deref(&general.last_news_read),
        }
    }
}

} // verus!
