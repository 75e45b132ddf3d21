//! Colour themes: the palette of the chrome, the colours of agent states,
//! and the table of named themes read from `themes.json`.
use vstd::prelude::*;

use crate::paths::{join_path, join_spec};
use crate::text::{chars_of, str_eq, strs};

verus! {

broadcast use vstd::string::group_string_axioms;

/// The palette the chrome is drawn with, each colour as `0xRRGGBB`.
#[derive(Clone, Copy, Debug, PartialEq, Eq)]
pub struct UiTheme {
    pub bg: u32,
    pub panel: u32,
    pub terminal: u32,
    pub text: u32,
    pub label: u32,
    pub muted: u32,
    pub hover: u32,
    pub active: u32,
    pub border: u32,
}

/// A theme counts as light when its background is brighter than mid grey.
pub open spec fn is_light(theme: UiTheme) -> bool {
    theme.bg > 0x808080
}

pub open spec fn agent_status_background_spec(status: Seq<char>, theme: UiTheme) -> u32 {
    if status == "working"@ {
        if is_light(theme) {
            0xfff3d6
        } else {
            0x2a210f
        }
    } else if status == "blocked"@ {
        if is_light(theme) {
            0xffe1e1
        } else {
            0x2b1515
        }
    } else if status == "done"@ {
        if is_light(theme) {
            0xdff6e6
        } else {
            0x102615
        }
    } else {
        theme.panel
    }
}

/// The background of an agent row: tinted by state on a light or dark
/// theme, the panel colour for any other state.
pub fn agent_status_background(status: &str, theme: UiTheme) -> (c: u32)
    ensures
        c == agent_status_background_spec(status@, theme),
{
    let light = theme.bg > 0x808080;
    if str_eq(status, "working") {
        if light {
            0xfff3d6
        } else {
            0x2a210f
        }
    } else if str_eq(status, "blocked") {
        if light {
            0xffe1e1
        } else {
            0x2b1515
        }
    } else if str_eq(status, "done") {
        if light {
            0xdff6e6
        } else {
            0x102615
        }
    } else {
        theme.panel
    }
}

pub open spec fn agent_status_accent_spec(status: Seq<char>) -> u32 {
    if status == "working"@ {
        0xf59e0b
    } else if status == "blocked"@ {
        0xef4444
    } else if status == "done"@ {
        0x22c55e
    } else {
        0x8a8a8a
    }
}

/// The accent bar of a focused agent row.
pub fn agent_status_accent(status: &str) -> (c: u32)
    ensures
        c == agent_status_accent_spec(status@),
{
    if str_eq(status, "working") {
        0xf59e0b
    } else if str_eq(status, "blocked") {
        0xef4444
    } else if str_eq(status, "done") {
        0x22c55e
    } else {
        0x8a8a8a
    }
}

pub open spec fn status_color_spec(status: Seq<char>) -> u32 {
    if status == "working"@ {
        0xf59e0b
    } else if status == "blocked"@ {
        0xef4444
    } else if status == "done"@ {
        0x22c55e
    } else if status == "idle"@ {
        0x8a8a8a
    } else {
        0x555555
    }
}

/// The status dot of an agent row.
pub fn status_color(status: &str) -> (c: u32)
    ensures
        c == status_color_spec(status@),
{
    if str_eq(status, "working") {
        0xf59e0b
    } else if str_eq(status, "blocked") {
        0xef4444
    } else if str_eq(status, "done") {
        0x22c55e
    } else if str_eq(status, "idle") {
        0x8a8a8a
    } else {
        0x555555
    }
}

pub open spec fn default_theme_spec() -> UiTheme {
    UiTheme {
        bg: 0x000000,
        panel: 0x000000,
        terminal: 0x000000,
        text: 0xffffff,
        label: 0xffffff,
        muted: 0x888888,
        hover: 0x1a1a1a,
        active: 0x2a2a2a,
        border: 0x2a2a2a,
    }
}

/// The theme used when a name is unknown: black with white text.
pub fn default_theme() -> (t: UiTheme)
    ensures
        t == default_theme_spec(),
{
    UiTheme {
        bg: 0x000000,
        panel: 0x000000,
        terminal: 0x000000,
        text: 0xffffff,
        label: 0xffffff,
        muted: 0x888888,
        hover: 0x1a1a1a,
        active: 0x2a2a2a,
        border: 0x2a2a2a,
    }
}


/// The value of a hexadecimal digit.
pub open spec fn hex_digit(c: char) -> Option<int> {
    if '0' <= c && c <= '9' {
        Some(c as int - '0' as int)
    } else if 'a' <= c && c <= 'f' {
        Some(c as int - 'a' as int + 10)
    } else if 'A' <= c && c <= 'F' {
        Some(c as int - 'A' as int + 10)
    } else {
        None
    }
}

pub open spec fn all_hex(s: Seq<char>) -> bool {
    forall|i: int| 0 <= i < s.len() ==> #[trigger] hex_digit(s[i]) is Some
}

/// The number written by a string of hexadecimal digits.
pub open spec fn hex_value(s: Seq<char>) -> int
    decreases s.len(),
{
    if s.len() == 0 {
        0
    } else {
        hex_value(s.drop_last()) * 16 + hex_digit(s.last())->0
    }
}

/// `u32::from_str_radix(s, 16)`, successful or not: one optional leading
/// `+`, then at least one hexadecimal digit and nothing else, naming a value
/// that fits in a `u32`.
pub open spec fn parse_hex_spec(s: Seq<char>) -> Option<u32> {
    let digits = if s.len() > 0 && s[0] == '+' {
        s.drop_first()
    } else {
        s
    };
    if digits.len() == 0 || !all_hex(digits) || hex_value(digits) > u32::MAX {
        None
    } else {
        Some(hex_value(digits) as u32)
    }
}

proof fn lemma_hex_value_grows(s: Seq<char>, i: int)
    requires
        0 <= i <= s.len(),
        all_hex(s),
    ensures
        hex_value(s.take(i)) <= hex_value(s),
        0 <= hex_value(s.take(i)),
    decreases s.len() - i,
{
    if i < s.len() {
        lemma_hex_value_grows(s, i + 1);
        assert(s.take(i + 1).drop_last() == s.take(i));
        assert(hex_digit(s[i]) is Some);
    } else {
        assert(s.take(i) == s);
    }
    lemma_hex_value_nonneg(s.take(i));
}

proof fn lemma_hex_value_nonneg(s: Seq<char>)
    requires
        all_hex(s),
    ensures
        hex_value(s) >= 0,
    decreases s.len(),
{
    if s.len() > 0 {
        assert(all_hex(s.drop_last())) by {
            assert forall|i: int| 0 <= i < s.drop_last().len() implies #[trigger] hex_digit(
                s.drop_last()[i],
            ) is Some by {
                assert(s.drop_last()[i] == s[i]);
            }
        }
        lemma_hex_value_nonneg(s.drop_last());
        assert(hex_digit(s[s.len() - 1]) is Some);
    }
}

fn digit_value(c: char) -> (d: Option<u32>)
    ensures
        match hex_digit(c) {
            Some(v) => d == Some(v as u32),
            None => d is None,
        },
{
    if '0' <= c && c <= '9' {
        Some((c as u32) - ('0' as u32))
    } else if 'a' <= c && c <= 'f' {
        Some((c as u32) - ('a' as u32) + 10)
    } else if 'A' <= c && c <= 'F' {
        Some((c as u32) - ('A' as u32) + 10)
    } else {
        None
    }
}

/// Parses a colour written in hexadecimal, as `u32::from_str_radix(s, 16)`.
pub fn parse_hex(s: &str) -> (v: Option<u32>)
    ensures
        v == parse_hex_spec(s@),
{
    let cs = chars_of(s);
    let start: usize = if cs.len() > 0 && cs[0] == '+' {
        1
    } else {
        0
    };
    let ghost digits = if s@.len() > 0 && s@[0] == '+' {
        s@.drop_first()
    } else {
        s@
    };
    assert(digits == cs@.skip(start as int));
    if cs.len() == start {
        return None;
    }
    let mut i: usize = start;
    while i < cs.len()
        invariant
            start <= i <= cs.len(),
            cs@ == s@,
            digits == cs@.skip(start as int),
            digits == (if s@.len() > 0 && s@[0] == '+' {
                s@.drop_first()
            } else {
                s@
            }),
            forall|j: int| 0 <= j < i - start ==> #[trigger] hex_digit(digits[j]) is Some,
        decreases cs.len() - i,
    {
        if digit_value(cs[i]).is_none() {
            assert(!all_hex(digits)) by {
                assert(digits[i - start] == cs@[i as int]);
                assert(hex_digit(digits[i - start]) is None);
                assert(0 <= i - start < digits.len());
            }
            return None;
        }
        assert(digits[i - start] == cs@[i as int]);
        i = i + 1;
    }
    assert(all_hex(digits));
    let mut acc: u64 = 0;
    let mut i: usize = start;
    while i < cs.len()
        invariant
            start <= i <= cs.len(),
            cs@ == s@,
            digits == cs@.skip(start as int),
            digits == (if s@.len() > 0 && s@[0] == '+' {
                s@.drop_first()
            } else {
                s@
            }),
            all_hex(digits),
            acc == hex_value(digits.take(i - start)),
            acc <= u32::MAX,
        decreases cs.len() - i,
    {
        assert(digits[i - start] == cs@[i as int]);
        assert(hex_digit(digits[i - start]) is Some);
        let d = digit_value(cs[i]).unwrap();
        assert(digits.take(i + 1 - start).drop_last() == digits.take(i - start));
        assert(digits.take(i + 1 - start).last() == cs@[i as int]);
        assert(hex_value(digits.take(i + 1 - start)) == acc * 16 + d);
        let next = acc * 16 + d as u64;
        if next > 0xffff_ffff {
            proof {
                lemma_hex_value_grows(digits, i + 1 - start);
                assert(hex_value(digits) > u32::MAX);
            }
            return None;
        }
        acc = next;
        i = i + 1;
    }
    assert(digits.take(cs.len() - start) == digits);
    Some(acc as u32)
}


/// A colour as written in `themes.json`; unreadable colours count as black.
pub open spec fn color_or_black(s: Seq<char>) -> u32 {
    match parse_hex_spec(s) {
        Some(v) => v,
        None => 0,
    }
}

/// The theme written as seven colours: background, panel, terminal, text,
/// muted, hover and active. Labels share the text colour and borders the
/// active one.
pub open spec fn theme_of_colors(c: Seq<Seq<char>>) -> UiTheme {
    UiTheme {
        bg: color_or_black(c[0]),
        panel: color_or_black(c[1]),
        terminal: color_or_black(c[2]),
        text: color_or_black(c[3]),
        label: color_or_black(c[3]),
        muted: color_or_black(c[4]),
        hover: color_or_black(c[5]),
        active: color_or_black(c[6]),
        border: color_or_black(c[6]),
    }
}

/// The palette fields that the colour at position `i` of a theme's seven
/// colours sets: background, panel, terminal, text and labels, muted text,
/// hover, and active and borders.
pub open spec fn fields_at(t: UiTheme, i: int) -> Seq<u32> {
    if i == 0 {
        seq![t.bg]
    } else if i == 1 {
        seq![t.panel]
    } else if i == 2 {
        seq![t.terminal]
    } else if i == 3 {
        seq![t.text, t.label]
    } else if i == 4 {
        seq![t.muted]
    } else if i == 5 {
        seq![t.hover]
    } else {
        seq![t.active, t.border]
    }
}

/// Every field holds the value written at its own position, read as
/// hexadecimal (a colour that does not read holds black); so the muted
/// colour is the fifth one written and the hover colour the sixth.
pub proof fn law_palette_reads_its_positions(c: Seq<Seq<char>>, i: int, f: int)
    requires
        c.len() == 7,
        0 <= i < 7,
        0 <= f < fields_at(theme_of_colors(c), i).len(),
    ensures
        match parse_hex_spec(c[i]) {
            Some(v) => fields_at(theme_of_colors(c), i)[f] == v,
            None => fields_at(theme_of_colors(c), i)[f] == 0,
        },
{
}

/// Changing one of the seven colours changes only the fields of its own
/// position.
pub proof fn law_palette_positions_independent(c: Seq<Seq<char>>, d: Seq<Seq<char>>, i: int, j: int)
    requires
        c.len() == 7,
        d.len() == 7,
        0 <= i < 7,
        0 <= j < 7,
        i != j,
        forall|k: int| 0 <= k < 7 && k != i ==> c[k] == d[k],
    ensures
        fields_at(theme_of_colors(c), j) == fields_at(theme_of_colors(d), j),
{
    assert(c[j] == d[j]);
}

fn color_or_black_exec(s: &String) -> (v: u32)
    ensures
        v == color_or_black(s@),
{
    match parse_hex(s.as_str()) {
        Some(v) => v,
        None => 0,
    }
}

/// The theme that seven colours describe.
pub fn theme_from_colors(colors: &Vec<String>) -> (t: UiTheme)
    requires
        colors.len() == 7,
    ensures
        t == theme_of_colors(strs(colors@)),
{
    let text = color_or_black_exec(&colors[3]);
    let active = color_or_black_exec(&colors[6]);
    UiTheme {
        bg: color_or_black_exec(&colors[0]),
        panel: color_or_black_exec(&colors[1]),
        terminal: color_or_black_exec(&colors[2]),
        text,
        label: text,
        muted: color_or_black_exec(&colors[4]),
        hover: color_or_black_exec(&colors[5]),
        active,
        border: active,
    }
}

/// What `serde_json` reads from a JSON object whose values are lists of
/// strings, as `(key, values)` pairs, or its error message.
pub uninterp spec fn json_string_lists(text: Seq<char>) -> Result<
    Seq<(Seq<char>, Seq<Seq<char>>)>,
    Seq<char>,
>;

pub open spec fn entries_view(v: Seq<(String, Vec<String>)>) -> Seq<(Seq<char>, Seq<Seq<char>>)> {
    v.map_values(|e: (String, Vec<String>)| (e.0@, strs(e.1@)))
}

/// `serde_json::from_str` into a `BTreeMap<String, Vec<String>>`, its
/// entries handed out in key order.
///
/// Trusted: the contract only names the outcome (`json_string_lists` of
/// the text): the same text always gives the same entries, or the same error
/// message. What JSON it accepts is serde_json's and is left unsaid.
#[verifier::external_body]
fn parse_string_lists(json: &str) -> (r: Result<Vec<(String, Vec<String>)>, String>)
    ensures
        match r {
            Ok(v) => json_string_lists(json@) == Ok::<_, Seq<char>>(entries_view(v@)),
            Err(e) => json_string_lists(json@) == Err::<Seq<(Seq<char>, Seq<Seq<char>>)>, _>(e@),
        },
{
    match serde_json::from_str::<std::collections::BTreeMap<String, Vec<String>>>(json) {
        Ok(map) => Ok(map.into_iter().collect()),
        Err(err) => Err(err.to_string()),
    }
}

/// The named themes among the entries of `themes.json`: entries that do not
/// hold exactly seven colours are skipped.
pub open spec fn themes_of_entries(entries: Seq<(Seq<char>, Seq<Seq<char>>)>) -> Seq<
    (Seq<char>, UiTheme),
>
    decreases entries.len(),
{
    if entries.len() == 0 {
        Seq::empty()
    } else {
        let rest = themes_of_entries(entries.drop_last());
        let e = entries.last();
        if e.1.len() == 7 {
            rest.push((e.0, theme_of_colors(e.1)))
        } else {
            rest
        }
    }
}

/// The named themes the client knows.
#[derive(Clone, Debug)]
pub struct ThemeTable {
    entries: Vec<(String, UiTheme)>,
}

impl View for ThemeTable {
    type V = Seq<(Seq<char>, UiTheme)>;

    closed spec fn view(&self) -> Seq<(Seq<char>, UiTheme)> {
        self.entries@.map_values(|e: (String, UiTheme)| (e.0@, e.1))
    }
}

impl ThemeTable {
    /// The table holding only the given theme under the given name.
    pub fn single(name: String, theme: UiTheme) -> (t: ThemeTable)
        ensures
            t@ == seq![(name@, theme)],
    {
        let mut entries: Vec<(String, UiTheme)> = Vec::new();
        entries.push((name, theme));
        let t = ThemeTable { entries };
        assert(t@ =~= seq![(name@, theme)]);
        t
    }

    /// The themes described by the entries of a parsed `themes.json`.
    pub fn from_entries(entries: Vec<(String, Vec<String>)>) -> (t: ThemeTable)
        ensures
            t@ == themes_of_entries(entries_view(entries@)),
    {
        let ghost ev = entries_view(entries@);
        let mut out: Vec<(String, UiTheme)> = Vec::new();
        let mut i: usize = 0;
        while i < entries.len()
            invariant
                i <= entries.len(),
                ev == entries_view(entries@),
                out@.map_values(|e: (String, UiTheme)| (e.0@, e.1)) == themes_of_entries(
                    ev.take(i as int),
                ),
            decreases entries.len() - i,
        {
            let ghost before = out@;
            assert(ev.take(i + 1).drop_last() =~= ev.take(i as int));
            assert(ev.take(i + 1).last() == ev[i as int]);
            assert(ev[i as int].1.len() == entries@[i as int].1@.len());
            if entries[i].1.len() == 7 {
                let theme = theme_from_colors(&entries[i].1);
                out.push((entries[i].0.clone(), theme));
                assert(out@.map_values(|e: (String, UiTheme)| (e.0@, e.1)) =~= before.map_values(
                    |e: (String, UiTheme)| (e.0@, e.1),
                ).push((ev[i as int].0, theme_of_colors(ev[i as int].1))));
            }
            i = i + 1;
        }
        assert(ev.take(entries.len() as int) =~= ev);
        ThemeTable { entries: out }
    }

    /// Parses `themes.json`: an object mapping theme names to seven colours.
    pub fn parse(json: &str) -> (t: Result<ThemeTable, String>)
        ensures
            match json_string_lists(json@) {
                Ok(entries) => t matches Ok(table) && table@ == themes_of_entries(entries),
                Err(msg) => t matches Err(e) && e@ == msg,
            },
    {
        match parse_string_lists(json) {
            Ok(entries) => Ok(ThemeTable::from_entries(entries)),
            Err(e) => Err(e),
        }
    }
}

/// The first theme of a table with the given name.
pub open spec fn lookup_theme(themes: Seq<(Seq<char>, UiTheme)>, name: Seq<char>) -> Option<UiTheme>
    decreases themes.len(),
{
    if themes.len() == 0 {
        None
    } else if themes[0].0 == name {
        Some(themes[0].1)
    } else {
        lookup_theme(themes.drop_first(), name)
    }
}

pub open spec fn herdr_theme_spec(themes: Seq<(Seq<char>, UiTheme)>, name: Seq<char>) -> UiTheme {
    match lookup_theme(themes, name) {
        Some(t) => t,
        None => default_theme_spec(),
    }
}

/// The theme called `name`, or the default theme when the table has none of
/// that name.
pub fn herdr_theme(themes: &ThemeTable, name: &str) -> (t: UiTheme)
    ensures
        t == herdr_theme_spec(themes@, name@),
{
    let ghost v = themes@;
    let mut i: usize = 0;
    assert(v.skip(0) =~= v);
    while i < themes.entries.len()
        invariant
            i <= themes.entries.len(),
            v == themes.entries@.map_values(|e: (String, UiTheme)| (e.0@, e.1)),
            lookup_theme(v, name@) == lookup_theme(v.skip(i as int), name@),
        decreases themes.entries.len() - i,
    {
        assert(v.skip(i as int)[0] == v[i as int]);
        if str_eq(themes.entries[i].0.as_str(), name) {
            return themes.entries[i].1;
        }
        assert(v.skip(i as int).drop_first() =~= v.skip(i + 1));
        i = i + 1;
    }
    default_theme()
}

/// The themes written to `themes.json` when it does not exist yet.
pub open spec fn default_themes_json_spec() -> Seq<char> {
    DEFAULT_THEMES_JSON@
}

pub const DEFAULT_THEMES_JSON: &'static str = r#"{
  "catppuccin-latte": ["f5f5f5", "eff1f5", "ffffff", "4c4f69", "6c6f85", "e6e9ef", "ccd0da"],
  "terminal": ["0b0b0b", "0b0b0b", "080808", "f2f2f2", "8a8a8a", "181818", "202020"],
  "tokyo-night": ["1a1b26", "1a1b26", "11121a", "c0caf5", "a9b1d6", "24283b", "414868"],
  "tokyo-night-day": ["e1e2e7", "e1e2e7", "f8f8fb", "3760bf", "6172b0", "d2d3da", "c4c8da"],
  "dracula": ["282a36", "282a36", "15161c", "f8f8f2", "d2d2dc", "44475a", "6272a4"],
  "nord": ["2e3440", "2e3440", "20242d", "eceff4", "d8dee9", "3b4252", "434c5e"],
  "gruvbox": ["282828", "282828", "1d2021", "ebdbb2", "d5c4a1", "3c3836", "504945"],
  "gruvbox-light": ["fbf1c7", "fbf1c7", "fffff0", "3c3836", "504945", "f2e5bc", "ebdbb2"],
  "one-dark": ["282c34", "282c34", "1f2329", "abb2bf", "969ca8", "2c313a", "3e4451"],
  "one-light": ["fafafa", "fafafa", "ffffff", "383a42", "686b77", "f5f5f6", "e5e5e6"],
  "solarized": ["002b36", "002b36", "001f27", "93a1a1", "839496", "073642", "586e75"],
  "solarized-light": ["fdf6e3", "fdf6e3", "fffff4", "657b83", "839496", "eee8d5", "93a1a1"],
  "kanagawa": ["1f1f28", "1f1f28", "16161d", "dcd7ba", "c8c3aa", "2a2a37", "363646"],
  "kanagawa-lotus": ["f2ecbc", "f2ecbc", "fffae0", "545464", "43436c", "d5cea3", "dcd5ac"],
  "rose-pine": ["191724", "191724", "111019", "e0def4", "c8c5dc", "1f1d2e", "26233a"],
  "rose-pine-dawn": ["faf4ed", "faf4ed", "fffbf5", "464261", "797593", "f2e9e1", "fffaf3"],
  "vesper": ["1a1a1a", "1a1a1a", "101010", "ffffff", "a0a0a0", "232323", "282828"],
  "oled": ["000000", "000000", "000000", "ffffff", "888888", "1a1a1a", "2a2a2a"]
}"#;

/// The themes in effect given the text of `themes.json` (`None` when it
/// could not be read): that text, else the built-in themes, else only the
/// default theme under the name `oled`.
pub open spec fn load_themes_spec(file: Option<Seq<char>>) -> Seq<(Seq<char>, UiTheme)> {
    let json = match file {
        Some(t) => t,
        None => default_themes_json_spec(),
    };
    match json_string_lists(json) {
        Ok(entries) => themes_of_entries(entries),
        Err(_) => match json_string_lists(default_themes_json_spec()) {
            Ok(entries) => themes_of_entries(entries),
            Err(_) => seq![("oled"@, default_theme_spec())],
        },
    }
}

pub fn load_themes(file: Option<String>) -> (t: ThemeTable)
    ensures
        t@ == load_themes_spec(
            match file {
                Some(f) => Some(f@),
                None => None,
            },
        ),
{
    let parsed = match &file {
        Some(text) => ThemeTable::parse(text.as_str()),
        None => ThemeTable::parse(DEFAULT_THEMES_JSON),
    };
    match parsed {
        Ok(t) => t,
        Err(_) => match ThemeTable::parse(DEFAULT_THEMES_JSON) {
            Ok(t) => t,
            Err(_) => ThemeTable::single(String::from_str("oled"), default_theme()),
        },
    }
}

/// Where the theme table is kept: `themes.json` in the settings directory.
pub fn themes_path(settings_dir: &str) -> (p: String)
    ensures
        p@ == join_spec(settings_dir@, "themes.json"@),
{
    join_path(settings_dir, "themes.json")
}

} // verus!
