use vstd::prelude::*;
use vstd::wrapping::u32_specs;
use crate::color::{Color, rgba, ONE};

verus! {

/// The page shown in the content area.
#[derive(Debug, Clone, Copy, PartialEq, Eq, Structural)]
pub enum MainPageView {
    Home,
    Animation,
    Layout,
    Typography,
}

/// A view's position in the sidebar (Home 0, Animation 1, Layout 2, Typography 3).
pub open spec fn view_rank(v: MainPageView) -> int {
    match v {
        MainPageView::Home => 0,
        MainPageView::Animation => 1,
        MainPageView::Layout => 2,
        MainPageView::Typography => 3,
    }
}

impl MainPageView {
    /// The view's position in the sidebar.
    pub fn index(self) -> (i: i32)
        ensures
            i == view_rank(self),
    {
        match self {
            MainPageView::Home => 0,
            MainPageView::Animation => 1,
            MainPageView::Layout => 2,
            MainPageView::Typography => 3,
        }
    }
}

/// Number of accent colors a theme can be given.
pub const ACCENT_COUNT: u32 = 10;

/// The accent colors, in order (red, green, blue encodings; alpha 1.0).
pub open spec fn accent_palette(i: int) -> Color {
    if i == 0 {
        rgba(0x3E4C_CCCD, 0x3F00_0000, 0x3F66_6666, ONE)
    } else if i == 1 {
        rgba(0x3DF5_C28F, 0x3F38_51EC, 0x3F47_AE14, ONE)
    } else if i == 2 {
        rgba(0x3E19_999A, 0x3F47_AE14, 0x3EF5_C28F, ONE)
    } else if i == 3 {
        rgba(0x3F61_47AE, 0x3ED7_0A3D, 0x3E38_51EC, ONE)
    } else if i == 4 {
        rgba(0x3F6B_851F, 0x3E8F_5C29, 0x3EEB_851F, ONE)
    } else if i == 5 {
        rgba(0x3F0F_5C29, 0x3EB8_51EC, 0x3F75_C28F, ONE)
    } else if i == 6 {
        rgba(0x3F75_C28F, 0x3F2E_147B, 0x3E38_51EC, ONE)
    } else if i == 7 {
        rgba(0x3F47_AE14, 0x3E61_47AE, 0x3F47_AE14, ONE)
    } else if i == 8 {
        rgba(0x3EA3_D70A, 0x3F23_D70A, 0x3E75_C28F, ONE)
    } else {
        rgba(0x3F61_47AE, 0x3E38_51EC, 0x3E75_C28F, ONE)
    }
}

/// The accent color at position `index` of the palette.
pub fn accent_color(index: u32) -> (c: Color)
    requires
        index < ACCENT_COUNT,
    ensures
        c == accent_palette(index as int),
{
    match index {
        0 => Color::new(0x3E4C_CCCD, 0x3F00_0000, 0x3F66_6666, ONE),
        1 => Color::new(0x3DF5_C28F, 0x3F38_51EC, 0x3F47_AE14, ONE),
        2 => Color::new(0x3E19_999A, 0x3F47_AE14, 0x3EF5_C28F, ONE),
        3 => Color::new(0x3F61_47AE, 0x3ED7_0A3D, 0x3E38_51EC, ONE),
        4 => Color::new(0x3F6B_851F, 0x3E8F_5C29, 0x3EEB_851F, ONE),
        5 => Color::new(0x3F0F_5C29, 0x3EB8_51EC, 0x3F75_C28F, ONE),
        6 => Color::new(0x3F75_C28F, 0x3F2E_147B, 0x3E38_51EC, ONE),
        7 => Color::new(0x3F47_AE14, 0x3E61_47AE, 0x3F47_AE14, ONE),
        8 => Color::new(0x3EA3_D70A, 0x3F23_D70A, 0x3E75_C28F, ONE),
        _ => Color::new(0x3F61_47AE, 0x3E38_51EC, 0x3E75_C28F, ONE),
    }
}

/// One step of the accent generator (a linear congruential generator).
pub open spec fn next_seed(seed: u32) -> u32 {
    u32_specs::wrapping_add(u32_specs::wrapping_mul(seed, 1664525), 1013904223)
}

/// The accent index drawn from `seed`, moved on by one when it equals `current`.
pub open spec fn accent_after(seed: u32, current: int) -> int {
    let drawn = (next_seed(seed) % ACCENT_COUNT) as int;
    if drawn == current { (drawn + 1) % (ACCENT_COUNT as int) } else { drawn }
}

/// The main page's selection and form state: the view shown, the direction the
/// page slides in from, the home page's widget values, the accent generator and
/// the version counter that tells the page to recompose.
pub struct MainPageState {
    pub current_view: MainPageView,
    pub page_reveal_direction: i32,
    pub home_icon_accent_enabled: bool,
    pub segmented_items: Vec<String>,
    pub segmented_index: i32,
    pub input_text: String,
    pub combo_items: Vec<String>,
    pub combo_selection: i32,
    pub random_seed: u32,
    pub accent_index: i32,
    pub state_version: u64,
    pub is_dark: bool,
}

impl MainPageState {
    /// The initial state: home view, dark theme, fruit and item lists, nothing
    /// selected in the dropdown, first accent.
    pub fn new() -> (s: Self)
        ensures
            s.current_view == MainPageView::Home,
            s.page_reveal_direction == 1,
            s.home_icon_accent_enabled,
            s.segmented_items@.len() == 3,
            s.segmented_items@[0]@ == "Apple"@,
            s.segmented_items@[1]@ == "Banana"@,
            s.segmented_items@[2]@ == "Cherry"@,
            s.segmented_index == 0,
            s.input_text@ == Seq::<char>::empty(),
            s.combo_items@.len() == 3,
            s.combo_items@[0]@ == "Item 1"@,
            s.combo_items@[1]@ == "Item 2"@,
            s.combo_items@[2]@ == "Item 3"@,
            s.combo_selection == -1,
            s.random_seed == 0xC0FF_EE11,
            s.accent_index == 0,
            s.state_version == 0,
            s.is_dark,
    {
        let mut segmented_items: Vec<String> = Vec::new();
        segmented_items.push("Apple".to_string());
        segmented_items.push("Banana".to_string());
        segmented_items.push("Cherry".to_string());
        let mut combo_items: Vec<String> = Vec::new();
        combo_items.push("Item 1".to_string());
        combo_items.push("Item 2".to_string());
        combo_items.push("Item 3".to_string());
        MainPageState {
            current_view: MainPageView::Home,
            page_reveal_direction: 1,
            home_icon_accent_enabled: true,
            segmented_items,
            segmented_index: 0,
            input_text: String::new(),
            combo_items,
            combo_selection: -1,
            random_seed: 0xC0FF_EE11,
            accent_index: 0,
            state_version: 0,
            is_dark: true,
        }
    }

    /// Switches between the light and dark theme.
    pub fn toggle_theme(&mut self)
        requires
            old(self).state_version < u64::MAX,
        ensures
            *final(self) == (MainPageState {
                is_dark: !old(self).is_dark,
                state_version: (old(self).state_version + 1) as u64,
                ..*old(self)
            }),
    {
        self.is_dark = !self.is_dark;
        self.state_version = self.state_version + 1;
    }

    /// Shows `view`. Returns whether the view changed; when it did, the page slides
    /// in from the right when moving down the sidebar (or staying) and from the left
    /// when moving up, and the version is bumped.
    pub fn switch_view(&mut self, view: MainPageView) -> (switched: bool)
        requires
            old(self).state_version < u64::MAX,
        ensures
            switched == (view != old(self).current_view),
            !switched ==> *final(self) == *old(self),
            switched ==> *final(self) == (MainPageState {
                current_view: view,
                page_reveal_direction: if view_rank(view) >= view_rank(old(self).current_view) { 1i32 } else { -1i32 },
                state_version: (old(self).state_version + 1) as u64,
                ..*old(self)
            }),
    {
        if view == self.current_view {
            return false;
        }
        let previous_index = self.current_view.index();
        let next_index = view.index();
        self.current_view = view;
        self.page_reveal_direction = if next_index >= previous_index { 1 } else { -1 };
        self.state_version = self.state_version + 1;
        true
    }

    /// Selects a segment; the version is bumped only when the index changes.
    pub fn set_segmented_index(&mut self, index: i32)
        requires
            old(self).state_version < u64::MAX,
        ensures
            old(self).segmented_index == index ==> *final(self) == *old(self),
            old(self).segmented_index != index ==> *final(self) == (MainPageState {
                segmented_index: index,
                state_version: (old(self).state_version + 1) as u64,
                ..*old(self)
            }),
    {
        if self.segmented_index == index {
            return;
        }
        self.segmented_index = index;
        self.state_version = self.state_version + 1;
    }

    /// Sets the input text; the version is bumped only when the text changes.
    pub fn set_input_text(&mut self, text: &str)
        requires
            old(self).state_version < u64::MAX,
        ensures
            old(self).input_text@ == text@ ==> *final(self) == *old(self),
            old(self).input_text@ != text@ ==> final(self).input_text@ == text@
                && *final(self) == (MainPageState {
                    input_text: final(self).input_text,
                    state_version: (old(self).state_version + 1) as u64,
                    ..*old(self)
                }),
    {
        let candidate = text.to_string();
        if self.input_text == candidate {
            return;
        }
        self.input_text = candidate;
        self.state_version = self.state_version + 1;
    }

    /// Selects a dropdown entry; the version is bumped only when the index changes.
    pub fn set_combo_selection(&mut self, index: i32)
        requires
            old(self).state_version < u64::MAX,
        ensures
            old(self).combo_selection == index ==> *final(self) == *old(self),
            old(self).combo_selection != index ==> *final(self) == (MainPageState {
                combo_selection: index,
                state_version: (old(self).state_version + 1) as u64,
                ..*old(self)
            }),
    {
        if self.combo_selection == index {
            return;
        }
        self.combo_selection = index;
        self.state_version = self.state_version + 1;
    }

    /// Turns the home page's icon accent on or off.
    pub fn toggle_home_icon_accent(&mut self)
        requires
            old(self).state_version < u64::MAX,
        ensures
            *final(self) == (MainPageState {
                home_icon_accent_enabled: !old(self).home_icon_accent_enabled,
                state_version: (old(self).state_version + 1) as u64,
                ..*old(self)
            }),
    {
        self.home_icon_accent_enabled = !self.home_icon_accent_enabled;
        self.state_version = self.state_version + 1;
    }

    /// Advances the accent generator and picks the next accent index, never the
    /// current one.
    pub fn randomize_theme_color(&mut self)
        requires
            old(self).state_version < u64::MAX,
        ensures
            final(self).random_seed == next_seed(old(self).random_seed),
            final(self).accent_index == accent_after(old(self).random_seed, old(self).accent_index as int),
            *final(self) == (MainPageState {
                random_seed: final(self).random_seed,
                accent_index: final(self).accent_index,
                state_version: (old(self).state_version + 1) as u64,
                ..*old(self)
            }),
    {
        self.random_seed = self.random_seed.wrapping_mul(1664525).wrapping_add(1013904223);
        let mut next_index = (self.random_seed % ACCENT_COUNT) as i32;
        if next_index == self.accent_index {
            next_index = (next_index + 1) % (ACCENT_COUNT as i32);
        }
        self.accent_index = next_index;
        self.state_version = self.state_version + 1;
    }
}

/// The accent picked from any seed is a palette position and differs from the
/// current accent (when that is a palette position).
pub proof fn lemma_accent_changes(seed: u32, current: int)
    requires
        0 <= current < ACCENT_COUNT,
    ensures
        0 <= accent_after(seed, current) < ACCENT_COUNT,
        accent_after(seed, current) != current,
{
}

} // verus!
