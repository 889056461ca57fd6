//! Panel layout: the single source of the heights and input offsets that
//! the drawing code advances through. All lengths are logical pixels.

use vstd::prelude::*;

verus! {

/// Top navigation bar height.
pub const NAV_H: i32 = 30;
/// Section label height.
pub const SECTION_LABEL_H: i32 = 21;
/// Segmented control body height.
pub const SEGMENTED_H: i32 = 30;
/// Gap after a segmented control.
pub const SEGMENTED_GAP: i32 = 9;
/// Text input height.
pub const INPUT_H: i32 = 26;
/// Horizontal content padding.
pub const CONTENT_PAD: i32 = 20;
/// Gap between an input and the next sub-label.
pub const INPUT_GAP: i32 = 6;

/// Main view: top padding.
pub const MAIN_TOP_PAD: i32 = 16;
/// Main view: top bar row.
pub const MAIN_TOPBAR_H: i32 = 52;
/// Main view: masthead gap above the title.
pub const MAIN_MASTHEAD_RULE_GAP: i32 = 14;
/// Main view: masthead title row.
pub const MAIN_MASTHEAD_ROW_H: i32 = 26;
/// Main view: whole masthead.
pub const MAIN_MASTHEAD_H: i32 = 40;
/// Main view: one metric row.
pub const MAIN_METRIC_ROW_H: i32 = 52;
/// Main view: MCP composition block (gap 6, frame 2, padding 2 × 6, cells
/// 10, legend advance 4, legend row 15).
pub const MAIN_MCP_COMP_H: i32 = 49;
/// Main view: token block (gap 6, head 14, rows advance 22, two rows of 19).
pub const MAIN_TOKEN_BLOCK_H: i32 = 80;
/// Main view: balance block (gap 6, head 14, row 18, breathing 2).
pub const MAIN_BALANCE_BLOCK_H: i32 = 40;
/// Main view: tail (content gap 2, footer 36).
pub const MAIN_TAIL_H: i32 = 38;

/// Settings: top and bottom edge padding.
pub const SETTINGS_EDGE_PAD: i32 = 12;
/// Gap from a section rule to its title.
pub const SECTION_RULE_GAP: i32 = 12;
/// A ruled section title.
pub const SECTION_RULE_H: i32 = 33;
/// One account card row (card 40 + gap 8).
pub const ACCOUNT_CARD_H: i32 = 48;
/// Authentication error row.
pub const AUTH_ERROR_H: i32 = 18;
/// The add-account button row.
pub const ADD_BTN_ROW_H: i32 = 36;
/// Extra height of the custom interval input (input 26 + gap 12).
pub const CUSTOMIZE_EXTRA_H: i32 = 38;
/// Toggle row with a description.
pub const TOGGLE_ROW_H: i32 = 42;
/// Toggle row without a description.
pub const TOGGLE_ROW_PLAIN_H: i32 = 28;
/// Gap after the peak inputs.
pub const PEAK_TAIL_GAP: i32 = 8;
/// A choice row (language / appearance): label, segmented control, gap 2.
pub const CHOICE_ROW_H: i32 = 62;
/// Gap after the proxy input.
pub const PROXY_TAIL_GAP: i32 = 6;
/// Backup buttons row.
pub const BACKUP_ROW_H: i32 = 37;
/// The about divider (rule gap + 6).
pub const ABOUT_DIVIDER_H: i32 = 18;
/// Version row.
pub const VERSION_ROW_H: i32 = 29;

/// Add page: name input top.
pub const ADD_NAME_Y: i32 = 206;
/// Add page: API key input top.
pub const ADD_KEY_Y: i32 = 259;
/// Add page (team): organization id input top.
pub const ADD_ORG_Y: i32 = 312;
/// Add page (team): project id input top.
pub const ADD_PROJECT_Y: i32 = 365;

/// Settings: top of the custom interval input; moves with the account
/// block and its error row.
pub open spec fn interval_y(has_account: bool, auth_error: bool) -> int {
    SETTINGS_EDGE_PAD + NAV_H + SECTION_LABEL_H + (if has_account {
        ACCOUNT_CARD_H + (if auth_error { AUTH_ERROR_H as int } else { 0 }) + ADD_BTN_ROW_H
    } else {
        ADD_BTN_ROW_H as int
    }) + SECTION_RULE_H + SEGMENTED_H + SEGMENTED_GAP
}

/// Settings: top of the peak inputs, after the notification section.
pub open spec fn peak_y(has_account: bool, auth_error: bool, customizing: bool) -> int {
    interval_y(has_account, auth_error) + (if customizing { CUSTOMIZE_EXTRA_H as int } else { 0 })
        + SECTION_RULE_H + 3 * TOGGLE_ROW_H + SECTION_RULE_H
}

/// Settings: top of the proxy input, after the general and network
/// sections.
pub open spec fn proxy_y(has_account: bool, auth_error: bool, customizing: bool) -> int {
    peak_y(has_account, auth_error, customizing) + INPUT_H + PEAK_TAIL_GAP + SECTION_RULE_H
        + CHOICE_ROW_H + CHOICE_ROW_H + TOGGLE_ROW_PLAIN_H + SECTION_RULE_H + SECTION_LABEL_H
}

/// Settings: total height, continuing from the proxy input through
/// backup, about and the version row.
pub open spec fn settings_height(has_account: bool, auth_error: bool, customizing: bool) -> int {
    proxy_y(has_account, auth_error, customizing) + INPUT_H + PROXY_TAIL_GAP + SECTION_RULE_H
        + BACKUP_ROW_H + ABOUT_DIVIDER_H + VERSION_ROW_H + SETTINGS_EDGE_PAD
}

/// Settings: top of the custom interval input.
pub fn interval_input_y(has_account: bool, auth_error: bool) -> (y: i32)
    ensures
        y == interval_y(has_account, auth_error),
{
    let y = SETTINGS_EDGE_PAD + NAV_H + SECTION_LABEL_H;
    let block = if has_account {
        ACCOUNT_CARD_H + if auth_error { AUTH_ERROR_H } else { 0 } + ADD_BTN_ROW_H
    } else {
        ADD_BTN_ROW_H
    };
    y + block + SECTION_RULE_H + SEGMENTED_H + SEGMENTED_GAP
}

/// Settings: top of the peak inputs. With the custom interval expanded,
/// the chain continues below its input.
pub fn peak_input_y(has_account: bool, auth_error: bool, customizing: bool) -> (y: i32)
    ensures
        y == peak_y(has_account, auth_error, customizing),
{
    let after_interval = if customizing { CUSTOMIZE_EXTRA_H } else { 0 };
    interval_input_y(has_account, auth_error) + after_interval + SECTION_RULE_H + 3 * TOGGLE_ROW_H
        + SECTION_RULE_H
}

/// Settings: top of the proxy input.
pub fn proxy_input_y(has_account: bool, auth_error: bool, customizing: bool) -> (y: i32)
    ensures
        y == proxy_y(has_account, auth_error, customizing),
{
    peak_input_y(has_account, auth_error, customizing) + INPUT_H + PEAK_TAIL_GAP + SECTION_RULE_H
        + CHOICE_ROW_H + CHOICE_ROW_H + TOGGLE_ROW_PLAIN_H + SECTION_RULE_H + SECTION_LABEL_H
}

/// Settings page total height.
pub fn settings_view_height(has_account: bool, auth_error: bool, customizing: bool) -> (h: i32)
    ensures
        h == settings_height(has_account, auth_error, customizing),
{
    proxy_input_y(has_account, auth_error, customizing) + INPUT_H + PROXY_TAIL_GAP + SECTION_RULE_H
        + BACKUP_ROW_H + ABOUT_DIVIDER_H + VERSION_ROW_H + SETTINGS_EDGE_PAD
}

/// Add page total height; the team variant adds organization and project
/// rows.
pub fn add_page_height(team: bool) -> (h: i32)
    ensures
        h == 338 + if team { 106int } else { 0int },
{
    338 + if team { 106 } else { 0 }
}

/// Main view: the data layout's height before saturation.
pub open spec fn main_data_height(rows: nat, has_mcp_comp: bool, has_stats: bool, has_balance: bool) -> int {
    MAIN_TOP_PAD + MAIN_TOPBAR_H + MAIN_MASTHEAD_H + rows * MAIN_METRIC_ROW_H + (if has_mcp_comp {
        MAIN_MCP_COMP_H as int
    } else {
        0
    }) + (if has_stats { MAIN_TOKEN_BLOCK_H as int } else { 0 }) + (if has_balance {
        MAIN_BALANCE_BLOCK_H as int
    } else {
        0
    }) + MAIN_TAIL_H
}

/// `x` saturated to `i32::MAX`.
pub open spec fn saturate_i32(x: int) -> int {
    if x > i32::MAX {
        i32::MAX as int
    } else {
        x
    }
}

/// Main view total height: 300 while loading or failed; otherwise the sum
/// of the main view segments (saturating at `i32::MAX`).
pub fn main_view_height(
    has_data: bool,
    rows: usize,
    has_mcp_comp: bool,
    has_stats: bool,
    has_balance: bool,
) -> (h: i32)
    ensures
        !has_data ==> h == 300,
        has_data ==> h == saturate_i32(
            main_data_height(rows as nat, has_mcp_comp, has_stats, has_balance),
        ),
{
    if !has_data {
        return 300;
    }
    let mut total: u128 = (MAIN_TOP_PAD + MAIN_TOPBAR_H + MAIN_MASTHEAD_H + MAIN_TAIL_H) as u128;
    let r = rows as u128;
    assert(r * 52 <= 52 * 0xffff_ffff_ffff_ffffu128) by (nonlinear_arith)
        requires
            r <= 0xffff_ffff_ffff_ffffu128,
    ;
    total = total + r * MAIN_METRIC_ROW_H as u128;
    if has_mcp_comp {
        total = total + MAIN_MCP_COMP_H as u128;
    }
    if has_stats {
        total = total + MAIN_TOKEN_BLOCK_H as u128;
    }
    if has_balance {
        total = total + MAIN_BALANCE_BLOCK_H as u128;
    }
    if total > i32::MAX as u128 {
        i32::MAX
    } else {
        total as i32
    }
}

} // verus!
