//! The settings page: the settings in a list with headings and gaps, the keys that change
//! the setting under the cursor, one text input per color, and the edited settings together
//! with those last applied and last saved.
use vstd::prelude::*;

use crate::audio::{rating_of_stars, AudioRating};
use crate::formatting::concat_all;
use crate::layout::{Padding, Rect};
use crate::list::{moved_to, Key, List, ListMove, ListOptions, ListState};
use crate::logs::{Action, Log};
use crate::markup::{spec_is_whitespace, trim, trimmed};
use crate::scroll::ScrollMargins;
use crate::settings::{readable_fg_spec, Colors, ReadableForeground, Settings};
use crate::style::{color_text, parse_color, parsed_color, Color};
use crate::text::{chars_of, push_char, push_str, string_from_chars};
use crate::text_input::{grapheme_clusters, input_outcome, typed_cluster, EditState, TextInput};
use crate::widgets::CursorMove;

verus! {

/// A line of the settings page.
#[derive(Debug, Clone, Copy, PartialEq, Eq, Structural)]
pub enum Setting {
    General,
    SkipRating,
    KeepTrackSort,
    SearchByPath,
    Colors,
    AccentColor,
    OnAccentColor,
    NeutralColor,
    OnNeutralColor,
    Empty,
}

/// True when the cursor can stop on the line: it is a setting, not a heading or a gap.
pub open spec fn selectable(s: Setting) -> bool {
    match s {
        Setting::General | Setting::Colors | Setting::Empty => false,
        _ => true,
    }
}

impl Setting {
    /// True when the cursor can stop on the line.
    pub fn filter(self) -> (b: bool)
        ensures
            b == selectable(self),
    {
        match self {
            Setting::General | Setting::Colors | Setting::Empty => false,
            _ => true,
        }
    }
}

/// The number of lines of the page.
pub const SETTINGS_LEN: usize = 12;

/// The lines of the page, in order: the general heading, a gap, the three general settings,
/// a gap, the colors heading, a gap, and the four colors.
pub open spec fn setting_at(i: int) -> Setting {
    if i == 0 {
        Setting::General
    } else if i == 1 {
        Setting::Empty
    } else if i == 2 {
        Setting::SkipRating
    } else if i == 3 {
        Setting::KeepTrackSort
    } else if i == 4 {
        Setting::SearchByPath
    } else if i == 5 {
        Setting::Empty
    } else if i == 6 {
        Setting::Colors
    } else if i == 7 {
        Setting::Empty
    } else if i == 8 {
        Setting::AccentColor
    } else if i == 9 {
        Setting::OnAccentColor
    } else if i == 10 {
        Setting::NeutralColor
    } else {
        Setting::OnNeutralColor
    }
}

/// The line at a position of the page.
pub fn setting_entry(i: usize) -> (s: Setting)
    requires
        i < SETTINGS_LEN,
    ensures
        s == setting_at(i as int),
{
    match i {
        0 => Setting::General,
        1 => Setting::Empty,
        2 => Setting::SkipRating,
        3 => Setting::KeepTrackSort,
        4 => Setting::SearchByPath,
        5 => Setting::Empty,
        6 => Setting::Colors,
        7 => Setting::Empty,
        8 => Setting::AccentColor,
        9 => Setting::OnAccentColor,
        10 => Setting::NeutralColor,
        _ => Setting::OnNeutralColor,
    }
}

/// The first selectable line at `i` or after it.
pub open spec fn selectable_from(i: int) -> Option<int>
    decreases 12 - i,
{
    if i >= 12 {
        None
    } else if selectable(setting_at(i)) {
        Some(i)
    } else {
        selectable_from(i + 1)
    }
}

/// The last selectable line at `i` or before it.
pub open spec fn selectable_until(i: int) -> Option<int>
    decreases i + 1,
{
    if i < 0 {
        None
    } else if selectable(setting_at(i)) {
        Some(i)
    } else {
        selectable_until(i - 1)
    }
}

/// The first selectable line after `current`, if any.
pub open spec fn next_setting(current: int) -> Option<int> {
    selectable_from(current + 1)
}

/// The last selectable line before `current`, if any.
pub open spec fn previous_setting(current: int) -> Option<int> {
    if current == 0 {
        None
    } else {
        selectable_until(current - 1)
    }
}

/// A position as a mathematical integer, if any.
pub open spec fn as_position(p: Option<usize>) -> Option<int> {
    match p {
        Some(i) => Some(i as int),
        None => None,
    }
}

/// The first selectable line after `current`, if any.
pub fn next(current: usize) -> (r: Option<usize>)
    requires
        current < usize::MAX,
    ensures
        as_position(r) == next_setting(current as int),
{
    let mut next = current + 1;
    while next < SETTINGS_LEN
        invariant
            current < next,
            selectable_from(next as int) == next_setting(current as int),
        decreases SETTINGS_LEN - next,
    {
        if setting_entry(next).filter() {
            return Some(next);
        }
        next = next + 1;
    }
    None
}

/// The last selectable line before `current`, if any.
pub fn previous(current: usize) -> (r: Option<usize>)
    requires
        current <= SETTINGS_LEN,
    ensures
        as_position(r) == previous_setting(current as int),
{
    if current == 0 {
        return None;
    }
    let mut prev = current - 1;
    loop
        invariant
            prev < current <= SETTINGS_LEN,
            selectable_until(prev as int) == previous_setting(current as int),
        ensures
            previous_setting(current as int) is None,
        decreases prev,
    {
        if setting_entry(prev).filter() {
            return Some(prev);
        }
        if prev == 0 {
            proof {
                assert(selectable_until(-1) is None);
            }
            break;
        }
        prev = prev - 1;
    }
    None
}

/// The line found from `i` on is selectable and lies between `i` and the end.
proof fn lemma_selectable_from(i: int)
    requires
        0 <= i,
    ensures
        selectable_from(i) matches Some(j) ==> i <= j < 12 && selectable(setting_at(j)),
    decreases 12 - i,
{
    if i < 12 && !selectable(setting_at(i)) {
        lemma_selectable_from(i + 1);
    }
}

/// The line found from `i` back is selectable and lies between the start and `i`.
proof fn lemma_selectable_until(i: int)
    ensures
        selectable_until(i) matches Some(j) ==> 0 <= j <= i && selectable(setting_at(j)),
    decreases i + 1,
{
    if i >= 0 && !selectable(setting_at(i)) {
        lemma_selectable_until(i - 1);
    }
}

/// Moving down from a setting and then up comes back to it.
pub proof fn law_down_then_up(i: int)
    requires
        0 <= i < 12,
        selectable(setting_at(i)),
        next_setting(i) is Some,
    ensures
        previous_setting(next_setting(i).unwrap()) == Some(i),
{
    assert(selectable_from(3) == Some(3int));
    assert(selectable_from(4) == Some(4int));
    assert(selectable_from(8) == Some(8int));
    assert(selectable_from(7) == Some(8int));
    assert(selectable_from(6) == Some(8int));
    assert(selectable_from(5) == Some(8int));
    assert(selectable_from(9) == Some(9int));
    assert(selectable_from(10) == Some(10int));
    assert(selectable_from(11) == Some(11int));
    assert(selectable_until(2) == Some(2int));
    assert(selectable_until(3) == Some(3int));
    assert(selectable_until(4) == Some(4int));
    assert(selectable_until(5) == Some(4int));
    assert(selectable_until(6) == Some(4int));
    assert(selectable_until(7) == Some(4int));
    assert(selectable_until(8) == Some(8int));
    assert(selectable_until(9) == Some(9int));
    assert(selectable_until(10) == Some(10int));
}

/// No character of a written color is whitespace.
proof fn lemma_color_text_plain(c: Color)
    ensures
        forall|i: int| 0 <= i < color_text(c).len() ==> !spec_is_whitespace(#[trigger] color_text(c)[i]),
{
    match c {
        Color::Indexed(i) => {
            crate::style::lemma_decimal_digits(i as nat);
        },
        _ => {},
    }
}

/// A written color takes at most twelve characters.
proof fn lemma_color_text_short(c: Color)
    ensures
        color_text(c).len() <= 12,
{
    if let Color::Indexed(i) = c {
        let n = i as nat;
        if n >= 10 {
            if n / 10 >= 10 {
                assert(crate::formatting::decimal(n / 10 / 10).len() == 1);
            }
            assert(crate::formatting::decimal(n / 10).len() <= 2);
        }
    }
}

/// Pieces without whitespace are typed in as they are.
proof fn lemma_typed_plain(gs: Seq<Seq<char>>)
    requires
        forall|i: int| 0 <= i < concat_all(gs).len() ==> !spec_is_whitespace(#[trigger] concat_all(gs)[i]),
    ensures
        concat_all(gs.map_values(|g: Seq<char>| typed_cluster(g))) == concat_all(gs),
    decreases gs.len(),
{
    if gs.len() > 0 {
        let init = gs.drop_last();
        let last = gs.last();
        assert(concat_all(gs) == concat_all(init) + last);
        assert forall|i: int| 0 <= i < concat_all(init).len() implies !spec_is_whitespace(#[trigger] concat_all(init)[i]) by {
            assert(concat_all(gs)[i] == concat_all(init)[i]);
        }
        lemma_typed_plain(init);
        assert forall|j: int| 0 <= j < last.len() implies !spec_is_whitespace(#[trigger] last[j]) by {
            assert(concat_all(gs)[concat_all(init).len() + j] == last[j]);
        }
        assert(typed_cluster(last) == last);
        let typed = gs.map_values(|g: Seq<char>| typed_cluster(g));
        assert(typed.drop_last() =~= init.map_values(|g: Seq<char>| typed_cluster(g)));
    } else {
        assert(gs.map_values(|g: Seq<char>| typed_cluster(g)) =~= Seq::<Seq<char>>::empty());
    }
}

/// The input state that shows a written color, with the cursor at its end.
pub open spec fn color_input(c: Color) -> EditState {
    EditState { text: color_text(c), cursor: color_text(c).len() as int, selection: None }
}

/// A text input that holds a color as text.
pub struct ColorSetting {
    input: TextInput,
}

impl ColorSetting {
    /// The input's state.
    pub closed spec fn state(&self) -> EditState {
        self.input.state()
    }

    /// The input is consistent.
    pub closed spec fn wf(&self) -> bool {
        self.input.wf()
    }

    /// An input holding the color as text, with the cursor at its end.
    pub fn new(color: Color) -> (s: Self)
        ensures
            s.wf(),
            s.state() == color_input(color),
    {
        let mut input = TextInput::new(Color::Reset, Color::Reset, Color::Reset);
        let mut s = ColorSetting { input };
        s.reset_with(color);
        s
    }

    /// Replaces the text with the color as text, with the cursor at its end.
    pub fn reset_with(&mut self, color: Color)
        ensures
            final(self).wf(),
            final(self).state() == color_input(color),
    {
        self.input.clear();
        let text = color.to_string();
        proof {
            lemma_color_text_short(color);
        }
        self.input.push_str(text.as_str());
        proof {
            lemma_color_text_plain(color);
            lemma_typed_plain(grapheme_clusters(text@));
            assert(Seq::<char>::empty().subrange(0, 0) + color_text(color) + Seq::<char>::empty().subrange(0, 0) =~= color_text(color));
        }
        self.input.move_cursor(CursorMove::End, false);
    }

    /// The text, without the whitespace at its ends.
    pub fn text_trimmed(&self) -> (r: String)
        ensures
            r@ == trimmed(self.state().text),
    {
        trim(self.input.as_str())
    }

    /// The text.
    pub fn as_str(&self) -> (s: &str)
        ensures
            s@ == self.state().text,
    {
        self.input.as_str()
    }

    /// The text input, for drawing it.
    pub fn text_input(&self) -> (t: &TextInput)
        ensures
            t.state() == self.state(),
    {
        &self.input
    }

    /// Hands a key to the text input; tells whether it changed.
    pub fn input(&mut self, key: Key, ctrl: bool, shift: bool) -> (changed: bool)
        requires
            old(self).wf(),
            old(self).state().text.len() < usize::MAX,
        ensures
            final(self).wf(),
            input_outcome(old(self).state(), key, ctrl, shift, final(self).state(), changed),
    {
        self.input.input(key, ctrl, shift)
    }
}

/// A color of the settings that the page edits.
#[derive(Debug, Clone, Copy, PartialEq, Eq, Structural)]
pub enum ColorSlot {
    Accent,
    OnAccent,
    Neutral,
    OnNeutral,
}

/// The color a line of the page edits, if it edits one.
pub open spec fn slot_of(s: Setting) -> Option<ColorSlot> {
    match s {
        Setting::AccentColor => Some(ColorSlot::Accent),
        Setting::OnAccentColor => Some(ColorSlot::OnAccent),
        Setting::NeutralColor => Some(ColorSlot::Neutral),
        Setting::OnNeutralColor => Some(ColorSlot::OnNeutral),
        _ => None,
    }
}

/// One of the colors.
pub open spec fn slot_color(c: Colors, slot: ColorSlot) -> Color {
    match slot {
        ColorSlot::Accent => c.accent,
        ColorSlot::OnAccent => c.on_accent,
        ColorSlot::Neutral => c.neutral,
        ColorSlot::OnNeutral => c.on_neutral,
    }
}

/// The settings with one color changed.
pub open spec fn with_slot_color(s: Settings, slot: ColorSlot, color: Color) -> Settings {
    Settings {
        colors: match slot {
            ColorSlot::Accent => Colors { accent: color, ..s.colors },
            ColorSlot::OnAccent => Colors { on_accent: color, ..s.colors },
            ColorSlot::Neutral => Colors { neutral: color, ..s.colors },
            ColorSlot::OnNeutral => Colors { on_neutral: color, ..s.colors },
        },
        ..s
    }
}

/// The text color generated for a background: the terminal's default color on the
/// terminal's default background, the fixed readable color, or on a true color the
/// caller's choice by luminance.
pub open spec fn generated_fg(bg: Color, by_luminance: Color) -> Color {
    match readable_fg_spec(bg) {
        None => Color::Reset,
        Some(ReadableForeground::Fixed(c)) => c,
        Some(ReadableForeground::ByLuminance(_, _, _)) => by_luminance,
    }
}

/// Black or white for text on the accent and on the neutral color, whichever contrasts
/// more when that color is a true color. The caller works it out from relative luminance.
#[derive(Debug, Clone, Copy, PartialEq, Eq, Structural)]
pub struct LuminanceChoice {
    pub on_accent: Color,
    pub on_neutral: Color,
}

/// The rating a key sets: `0` for none, `1` to `5` for that many stars.
pub open spec fn rating_key(c: char) -> Option<Option<AudioRating>> {
    if c == '0' {
        Some(None)
    } else if '1' <= c <= '5' {
        Some(rating_of_stars(c as int - '0' as int))
    } else {
        None
    }
}

/// The rating a key sets.
fn rating_for_key(c: char) -> (r: Option<Option<AudioRating>>)
    ensures
        r == rating_key(c),
{
    if c == '0' {
        Some(None)
    } else {
        match AudioRating::from_char(c) {
            Some(rating) => Some(Some(rating)),
            None => None,
        }
    }
}

/// Equality of optional ratings.
fn same_rating(a: Option<AudioRating>, b: Option<AudioRating>) -> (r: bool)
    ensures
        r == (a == b),
{
    match (a, b) {
        (Some(x), Some(y)) => x == y,
        (None, None) => true,
        _ => false,
    }
}

/// The state of the page as plain values: the settings being edited, those last applied,
/// those last saved, the defaults, the list, and the four color inputs.
pub struct SettingsPageView {
    pub settings: Settings,
    pub applied: Settings,
    pub written: Settings,
    pub default: Settings,
    pub list: ListState,
    pub accent: EditState,
    pub on_accent: EditState,
    pub neutral: EditState,
    pub on_neutral: EditState,
}

/// The input of one of the colors.
pub open spec fn slot_input(v: SettingsPageView, slot: ColorSlot) -> EditState {
    match slot {
        ColorSlot::Accent => v.accent,
        ColorSlot::OnAccent => v.on_accent,
        ColorSlot::Neutral => v.neutral,
        ColorSlot::OnNeutral => v.on_neutral,
    }
}

/// The page with the input of one of the colors changed.
pub open spec fn with_slot_input(v: SettingsPageView, slot: ColorSlot, st: EditState) -> SettingsPageView {
    match slot {
        ColorSlot::Accent => SettingsPageView { accent: st, ..v },
        ColorSlot::OnAccent => SettingsPageView { on_accent: st, ..v },
        ColorSlot::Neutral => SettingsPageView { neutral: st, ..v },
        ColorSlot::OnNeutral => SettingsPageView { on_neutral: st, ..v },
    }
}

/// The message logged for a text that is no color.
pub open spec fn bad_color_message(input: Seq<char>) -> Seq<char> {
    "Failed to parse "@ + seq!['\u{22}'] + input + seq!['\u{22}'] + " as a color"@
}

/// What a key does on the line of a color: enter reads the input (without the whitespace
/// at its ends) as a color and sets it when it differs, or logs that it is no color;
/// ctrl-g on a color for text sets the text color generated for its background and writes
/// it into the input; other keys go to the input, and the page is drawn again when the
/// input changed.
pub open spec fn color_key_outcome(
    o: SettingsPageView,
    n: SettingsPageView,
    key: Key,
    ctrl: bool,
    shift: bool,
    lum: LuminanceChoice,
    slot: ColorSlot,
    a: Action,
) -> bool {
    let input = trimmed(slot_input(o, slot).text);
    if key == Key::Enter {
        match parsed_color(input) {
            Some(c) => if c != slot_color(o.settings.colors, slot) {
                n == (SettingsPageView { settings: with_slot_color(o.settings, slot, c), ..o })
                    && a is Render
            } else {
                n == o && a is Nothing
            },
            None => n == o && (a matches Action::Log(l) && l.message_spec() == bad_color_message(
                input,
            )),
        }
    } else if ctrl && key == Key::Char('g') && (slot == ColorSlot::OnAccent || slot
        == ColorSlot::OnNeutral) {
        let fg = if slot == ColorSlot::OnAccent {
            generated_fg(o.settings.colors.accent, lum.on_accent)
        } else {
            generated_fg(o.settings.colors.neutral, lum.on_neutral)
        };
        n == with_slot_input(
            SettingsPageView { settings: with_slot_color(o.settings, slot, fg), ..o },
            slot,
            color_input(fg),
        ) && a is Render
    } else {
        exists|st: EditState, changed: bool|
            #[trigger] input_outcome(slot_input(o, slot), key, ctrl, shift, st, changed) && n
                == with_slot_input(o, slot, st) && (if changed {
                a is Render
            } else {
                a is Nothing
            })
    }
}

/// What a key does to the setting under the cursor: a rating key sets the rating below
/// which tracks are skipped when it differs, space toggles the two switches, the colors go
/// by `color_key_outcome`, and nothing happens on the other lines.
pub open spec fn setting_key_outcome(
    o: SettingsPageView,
    n: SettingsPageView,
    key: Key,
    ctrl: bool,
    shift: bool,
    lum: LuminanceChoice,
    a: Action,
) -> bool {
    let line = setting_at(o.list.index);
    match slot_of(line) {
        Some(slot) => color_key_outcome(o, n, key, ctrl, shift, lum, slot, a),
        None => if line == Setting::SkipRating && key is Char && rating_key(key->Char_0) is Some
            && rating_key(key->Char_0).unwrap() != o.settings.skip_tracks_with_rating {
            n == (SettingsPageView {
                settings: Settings {
                    skip_tracks_with_rating: rating_key(key->Char_0).unwrap(),
                    ..o.settings
                },
                ..o
            }) && a is Render
        } else if line == Setting::KeepTrackSort && key == Key::Char(' ') {
            n == (SettingsPageView {
                settings: Settings {
                    keep_selected_track_on_sort: !o.settings.keep_selected_track_on_sort,
                    ..o.settings
                },
                ..o
            }) && a is Render
        } else if line == Setting::SearchByPath && key == Key::Char(' ') {
            n == (SettingsPageView {
                settings: Settings { search_by_path: !o.settings.search_by_path, ..o.settings },
                ..o
            }) && a is Render
        } else {
            n == o && a is Nothing
        },
    }
}

/// What a key does on the page: down and up move to the next and the previous setting
/// (skipping headings and gaps), ctrl-a applies edited settings that differ from those
/// applied, ctrl-s asks to save when they differ from those saved, ctrl-r goes back to the
/// defaults, and other keys go to the setting under the cursor.
pub open spec fn page_key_outcome(
    o: SettingsPageView,
    n: SettingsPageView,
    key: Key,
    ctrl: bool,
    shift: bool,
    lum: LuminanceChoice,
    a: Action,
) -> bool {
    if key == Key::Down {
        match next_setting(o.list.index) {
            Some(j) => n == (SettingsPageView { list: moved_to(o.list, j, false).0, ..o })
                && a is Render,
            None => n == o && a is Nothing,
        }
    } else if key == Key::Up {
        match previous_setting(o.list.index) {
            Some(j) => n == (SettingsPageView { list: moved_to(o.list, j, false).0, ..o })
                && a is Render,
            None => n == o && a is Nothing,
        }
    } else if key == Key::Char('a') && ctrl && o.settings != o.applied {
        n == (SettingsPageView { applied: o.settings, ..o }) && a is ApplySettings
    } else if key == Key::Char('s') && ctrl && o.settings != o.written {
        n == o && a is SaveSettings
    } else if key == Key::Char('r') && ctrl {
        n == (SettingsPageView {
            settings: o.default,
            accent: color_input(o.default.colors.accent),
            on_accent: color_input(o.default.colors.on_accent),
            neutral: color_input(o.default.colors.neutral),
            on_neutral: color_input(o.default.colors.on_neutral),
            ..o
        }) && a is Render
    } else {
        setting_key_outcome(o, n, key, ctrl, shift, lum, a)
    }
}

/// Once the page is laid out, a key never leaves the cursor on a heading or a gap.
pub proof fn law_cursor_stays_on_a_setting(
    o: SettingsPageView,
    n: SettingsPageView,
    key: Key,
    ctrl: bool,
    shift: bool,
    lum: LuminanceChoice,
    a: Action,
)
    requires
        o.list.len == SETTINGS_LEN,
        0 <= o.list.index < SETTINGS_LEN,
        selectable(setting_at(o.list.index)),
        page_key_outcome(o, n, key, ctrl, shift, lum, a),
    ensures
        selectable(setting_at(n.list.index)),
        0 <= n.list.index < SETTINGS_LEN,
{
    lemma_selectable_from(o.list.index + 1);
    lemma_selectable_until(o.list.index - 1);
    if key != Key::Down && key != Key::Up && !(key == Key::Char('a') && ctrl && o.settings
        != o.applied) && !(key == Key::Char('s') && ctrl && o.settings != o.written) && !(key
        == Key::Char('r') && ctrl) {
        match slot_of(setting_at(o.list.index)) {
            Some(slot) => {
                let input = trimmed(slot_input(o, slot).text);
                if key != Key::Enter && !(ctrl && key == Key::Char('g') && (slot
                    == ColorSlot::OnAccent || slot == ColorSlot::OnNeutral)) {
                    let (st, changed) = choose|st: EditState, changed: bool|
                        #[trigger] input_outcome(slot_input(o, slot), key, ctrl, shift, st, changed)
                            && n == with_slot_input(o, slot, st) && (if changed {
                            a is Render
                        } else {
                            a is Nothing
                        });
                    assert(n.list == o.list);
                }
            },
            None => {},
        }
    }
}

/// The options of the page's list: three lines kept visible above and below the cursor.
pub open spec fn page_list_options() -> ListOptions {
    ListOptions {
        scrolloff: ScrollMargins { margin_top: 3, margin_bottom: 3, padding_bottom: 0 },
        padding: Padding { left: 0, right: 0, top: 0, bottom: 0 },
        scrollbar: false,
        scrollbar_margin: 1,
    }
}

/// The settings page.
pub struct SettingsPage {
    settings: Settings,
    applied: Settings,
    written: Settings,
    default: Settings,
    list: List,
    accent: ColorSetting,
    on_accent: ColorSetting,
    neutral: ColorSetting,
    on_neutral: ColorSetting,
}

impl View for SettingsPage {
    type V = SettingsPageView;

    closed spec fn view(&self) -> SettingsPageView {
        SettingsPageView {
            settings: self.settings,
            applied: self.applied,
            written: self.written,
            default: self.default,
            list: self.list.state(),
            accent: self.accent.state(),
            on_accent: self.on_accent.state(),
            neutral: self.neutral.state(),
            on_neutral: self.on_neutral.state(),
        }
    }
}

impl SettingsPage {
    /// The cursor is on a line of the page, the list keeps its options and a scroll within
    /// the page, and the inputs are consistent.
    pub closed spec fn wf(&self) -> bool {
        &&& self.list.state().index < SETTINGS_LEN
        &&& self.list.state().len <= SETTINGS_LEN
        &&& self.list.scroll_spec() <= SETTINGS_LEN
        &&& self.list.options_spec() == page_list_options()
        &&& self.accent.wf()
        &&& self.on_accent.wf()
        &&& self.neutral.wf()
        &&& self.on_neutral.wf()
    }

    /// The page for the settings in use, with the defaults that ctrl-r goes back to; the
    /// cursor is on the first setting.
    pub fn new(settings: &Settings, default: Settings) -> (p: Self)
        ensures
            p.wf(),
            p@ == (SettingsPageView {
                settings: *settings,
                applied: *settings,
                written: *settings,
                default,
                list: ListState { index: 2, selector: None, len: 0 },
                accent: color_input(settings.colors.accent),
                on_accent: color_input(settings.colors.on_accent),
                neutral: color_input(settings.colors.neutral),
                on_neutral: color_input(settings.colors.on_neutral),
            }),
    {
        proof {
            assert(selectable_from(2) == Some(2int));
            assert(selectable_from(1) == Some(2int));
        }
        let selected = if setting_entry(0).filter() {
            0
        } else {
            match next(0) {
                Some(i) => i,
                None => 0,
            }
        };
        SettingsPage {
            settings: *settings,
            applied: *settings,
            written: *settings,
            default,
            list: List::new().with_index(selected).with_scrolloff(ScrollMargins::vertical(3)),
            accent: ColorSetting::new(settings.colors.accent),
            on_accent: ColorSetting::new(settings.colors.on_accent),
            neutral: ColorSetting::new(settings.colors.neutral),
            on_neutral: ColorSetting::new(settings.colors.on_neutral),
        }
    }

    /// The settings being edited.
    pub fn settings(&self) -> (s: &Settings)
        ensures
            *s == self@.settings,
    {
        &self.settings
    }

    /// True when the edited settings are those last applied.
    pub fn is_applied(&self) -> (b: bool)
        ensures
            b == (self@.settings == self@.applied),
    {
        self.settings == self.applied
    }

    /// True when the edited settings are those last saved.
    pub fn is_written(&self) -> (b: bool)
        ensures
            b == (self@.settings == self@.written),
    {
        self.settings == self.written
    }

    /// The line under the cursor.
    pub fn current(&self) -> (s: Setting)
        requires
            self.wf(),
        ensures
            s == setting_at(self@.list.index),
    {
        setting_entry(self.list.index())
    }

    /// The input of a color, for drawing it.
    pub fn color_input(&self, slot: ColorSlot) -> (t: &TextInput)
        ensures
            t.state() == slot_input(self@, slot),
    {
        match slot {
            ColorSlot::Accent => self.accent.text_input(),
            ColorSlot::OnAccent => self.on_accent.text_input(),
            ColorSlot::Neutral => self.neutral.text_input(),
            ColorSlot::OnNeutral => self.on_neutral.text_input(),
        }
    }

    /// The layout step of drawing the page's list of lines in `area`: returns the
    /// rectangle of the list and that of its scrollbar, if any. The cursor stays on a line.
    pub fn layout(&mut self, area: Rect) -> (r: (Rect, Option<Rect>))
        requires
            old(self).wf(),
            area.x + area.width <= u16::MAX,
        ensures
            final(self).wf(),
            final(self)@ == (SettingsPageView { list: final(self)@.list, ..old(self)@ }),
            final(self)@.list.len == SETTINGS_LEN,
    {
        let r = self.list.layout(area, SETTINGS_LEN);
        r
    }

    /// Goes back to the default settings, and writes their colors into the inputs.
    fn reset(&mut self)
        requires
            old(self).wf(),
        ensures
            final(self).wf(),
            final(self)@ == (SettingsPageView {
                settings: old(self)@.default,
                accent: color_input(old(self)@.default.colors.accent),
                on_accent: color_input(old(self)@.default.colors.on_accent),
                neutral: color_input(old(self)@.default.colors.neutral),
                on_neutral: color_input(old(self)@.default.colors.on_neutral),
                ..old(self)@
            }),
    {
        self.settings = self.default;
        self.accent.reset_with(self.settings.colors.accent);
        self.on_accent.reset_with(self.settings.colors.on_accent);
        self.neutral.reset_with(self.settings.colors.neutral);
        self.on_neutral.reset_with(self.settings.colors.on_neutral);
    }

    /// Sets one of the colors of the edited settings.
    fn set_slot_color(&mut self, slot: ColorSlot, color: Color)
        ensures
            final(self)@ == (SettingsPageView {
                settings: with_slot_color(old(self)@.settings, slot, color),
                ..old(self)@
            }),
            old(self).wf() ==> final(self).wf(),
    {
        match slot {
            ColorSlot::Accent => self.settings.colors.accent = color,
            ColorSlot::OnAccent => self.settings.colors.on_accent = color,
            ColorSlot::Neutral => self.settings.colors.neutral = color,
            ColorSlot::OnNeutral => self.settings.colors.on_neutral = color,
        }
    }

    /// The text of a color's input, without the whitespace at its ends.
    fn slot_text_trimmed(&self, slot: ColorSlot) -> (r: String)
        ensures
            r@ == trimmed(slot_input(self@, slot).text),
    {
        match slot {
            ColorSlot::Accent => self.accent.text_trimmed(),
            ColorSlot::OnAccent => self.on_accent.text_trimmed(),
            ColorSlot::Neutral => self.neutral.text_trimmed(),
            ColorSlot::OnNeutral => self.on_neutral.text_trimmed(),
        }
    }

    /// Hands a key to the input of a color; tells whether it changed.
    fn slot_input_key(&mut self, slot: ColorSlot, key: Key, ctrl: bool, shift: bool) -> (changed: bool)
        requires
            old(self).wf(),
            slot_input(old(self)@, slot).text.len() < usize::MAX,
        ensures
            final(self).wf(),
            final(self)@ == with_slot_input(old(self)@, slot, slot_input(final(self)@, slot)),
            input_outcome(slot_input(old(self)@, slot), key, ctrl, shift, slot_input(final(self)@, slot), changed),
    {
        match slot {
            ColorSlot::Accent => self.accent.input(key, ctrl, shift),
            ColorSlot::OnAccent => self.on_accent.input(key, ctrl, shift),
            ColorSlot::Neutral => self.neutral.input(key, ctrl, shift),
            ColorSlot::OnNeutral => self.on_neutral.input(key, ctrl, shift),
        }
    }

    /// Writes a color into the input of a color.
    fn slot_reset_with(&mut self, slot: ColorSlot, color: Color)
        requires
            old(self).wf(),
        ensures
            final(self).wf(),
            final(self)@ == with_slot_input(old(self)@, slot, color_input(color)),
    {
        match slot {
            ColorSlot::Accent => self.accent.reset_with(color),
            ColorSlot::OnAccent => self.on_accent.reset_with(color),
            ColorSlot::Neutral => self.neutral.reset_with(color),
            ColorSlot::OnNeutral => self.on_neutral.reset_with(color),
        }
    }

    /// Reacts to a key on the line of a color, as `color_key_outcome` tells.
    fn handle_color(&mut self, slot: ColorSlot, key: Key, ctrl: bool, shift: bool, lum: LuminanceChoice) -> (a: Action)
        requires
            old(self).wf(),
            slot_input(old(self)@, slot).text.len() < usize::MAX,
        ensures
            final(self).wf(),
            color_key_outcome(old(self)@, final(self)@, key, ctrl, shift, lum, slot, a),
    {
        let ghost before = self@;
        if key == Key::Enter {
            let text = self.slot_text_trimmed(slot);
            match parse_color(text.as_str()) {
                Some(color) => {
                    let current = match slot {
                        ColorSlot::Accent => self.settings.colors.accent,
                        ColorSlot::OnAccent => self.settings.colors.on_accent,
                        ColorSlot::Neutral => self.settings.colors.neutral,
                        ColorSlot::OnNeutral => self.settings.colors.on_neutral,
                    };
                    if current != color {
                        self.set_slot_color(slot, color);
                        Action::Render
                    } else {
                        Action::Nothing
                    }
                },
                None => {
                    let mut msg = String::new();
                    push_str(&mut msg, "Failed to parse ");
                    push_char(&mut msg, '\u{22}');
                    push_str(&mut msg, text.as_str());
                    push_char(&mut msg, '\u{22}');
                    push_str(&mut msg, " as a color");
                    proof {
                        assert(msg@ =~= bad_color_message(trimmed(slot_input(before, slot).text)));
                    }
                    Action::Log(Log::new(msg))
                },
            }
        } else if ctrl && key == Key::Char('g') && (slot == ColorSlot::OnAccent || slot
            == ColorSlot::OnNeutral) {
            let (bg, by_luminance) = if slot == ColorSlot::OnAccent {
                (self.settings.colors.accent, lum.on_accent)
            } else {
                (self.settings.colors.neutral, lum.on_neutral)
            };
            let fg = match Colors::readable_fg(bg) {
                None => Color::Reset,
                Some(ReadableForeground::Fixed(c)) => c,
                Some(ReadableForeground::ByLuminance(_, _, _)) => by_luminance,
            };
            self.set_slot_color(slot, fg);
            self.slot_reset_with(slot, fg);
            Action::Render
        } else {
            let changed = self.slot_input_key(slot, key, ctrl, shift);
            proof {
                let st = slot_input(self@, slot);
                assert(input_outcome(slot_input(before, slot), key, ctrl, shift, st, changed));
            }
            if changed {
                Action::Render
            } else {
                Action::Nothing
            }
        }
    }

    /// Reacts to a key on the setting under the cursor, as `setting_key_outcome` tells.
    fn handle_setting(&mut self, key: Key, ctrl: bool, shift: bool, lum: LuminanceChoice) -> (a: Action)
        requires
            old(self).wf(),
            old(self)@.accent.text.len() < usize::MAX,
            old(self)@.on_accent.text.len() < usize::MAX,
            old(self)@.neutral.text.len() < usize::MAX,
            old(self)@.on_neutral.text.len() < usize::MAX,
        ensures
            final(self).wf(),
            setting_key_outcome(old(self)@, final(self)@, key, ctrl, shift, lum, a),
    {
        match self.current() {
            Setting::SkipRating => {
                if let Key::Char(c) = key {
                    if let Some(rating) = rating_for_key(c) {
                        if !same_rating(rating, self.settings.skip_tracks_with_rating) {
                            self.settings.skip_tracks_with_rating = rating;
                            return Action::Render;
                        }
                    }
                }
                Action::Nothing
            },
            Setting::KeepTrackSort => {
                if key == Key::Char(' ') {
                    self.settings.keep_selected_track_on_sort = !self.settings.keep_selected_track_on_sort;
                    Action::Render
                } else {
                    Action::Nothing
                }
            },
            Setting::SearchByPath => {
                if key == Key::Char(' ') {
                    self.settings.search_by_path = !self.settings.search_by_path;
                    Action::Render
                } else {
                    Action::Nothing
                }
            },
            Setting::AccentColor => self.handle_color(ColorSlot::Accent, key, ctrl, shift, lum),
            Setting::OnAccentColor => self.handle_color(ColorSlot::OnAccent, key, ctrl, shift, lum),
            Setting::NeutralColor => self.handle_color(ColorSlot::Neutral, key, ctrl, shift, lum),
            Setting::OnNeutralColor => self.handle_color(ColorSlot::OnNeutral, key, ctrl, shift, lum),
            Setting::General | Setting::Colors | Setting::Empty => Action::Nothing,
        }
    }

    /// Reacts to a key as `page_key_outcome` tells. The settings in use change only when
    /// ctrl-a applies the edited settings; `lum` holds the caller's choice of black or
    /// white on true colors, used by ctrl-g.
    pub fn on_input(
        &mut self,
        key: Key,
        ctrl: bool,
        shift: bool,
        settings: &mut Settings,
        lum: LuminanceChoice,
    ) -> (a: Action)
        requires
            old(self).wf(),
            old(self)@.accent.text.len() < usize::MAX,
            old(self)@.on_accent.text.len() < usize::MAX,
            old(self)@.neutral.text.len() < usize::MAX,
            old(self)@.on_neutral.text.len() < usize::MAX,
        ensures
            final(self).wf(),
            page_key_outcome(old(self)@, final(self)@, key, ctrl, shift, lum, a),
            *final(settings) == (if key == Key::Char('a') && ctrl && old(self)@.settings != old(
                self,
            )@.applied {
                old(self)@.settings
            } else {
                *old(settings)
            }),
    {
        match key {
            Key::Down => match next(self.list.index()) {
                Some(n) => {
                    self.list.move_index(ListMove::Custom(n), false);
                    Action::Render
                },
                None => Action::Nothing,
            },
            Key::Up => match previous(self.list.index()) {
                Some(p) => {
                    self.list.move_index(ListMove::Custom(p), false);
                    Action::Render
                },
                None => Action::Nothing,
            },
            Key::Char(c) => {
                if c == 'a' && ctrl && !self.is_applied() {
                    *settings = self.settings;
                    self.applied = self.settings;
                    Action::ApplySettings
                } else if c == 's' && ctrl && !self.is_written() {
                    Action::SaveSettings
                } else if c == 'r' && ctrl {
                    self.reset();
                    Action::Render
                } else {
                    self.handle_setting(key, ctrl, shift, lum)
                }
            },
            _ => self.handle_setting(key, ctrl, shift, lum),
        }
    }

    /// Marks the edited settings as saved, once the caller saved them.
    pub fn mark_written(&mut self)
        ensures
            final(self)@ == (SettingsPageView { written: old(self)@.settings, ..old(self)@ }),
            old(self).wf() ==> final(self).wf(),
    {
        self.written = self.settings;
    }
}

} // verus!
