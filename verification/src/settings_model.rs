//! Platform-neutral Settings presentation metadata: pages, and one
//! descriptor per setting a host renders.
use vstd::prelude::*;

verus! {

#[derive(Debug, Clone, Copy, PartialEq, Eq, Structural)]
pub enum SettingsPage {
    General,
    Movement,
    Grid,
    Shortcuts,
    Appearance,
    About,
}

/// Every page in sidebar order; About carries no settings and stays last.
pub open spec fn page_order() -> Seq<SettingsPage> {
    seq![
        SettingsPage::General,
        SettingsPage::Movement,
        SettingsPage::Grid,
        SettingsPage::Shortcuts,
        SettingsPage::Appearance,
        SettingsPage::About,
    ]
}

impl SettingsPage {
    /// Every page in sidebar order.
    pub fn all() -> (v: Vec<SettingsPage>)
        ensures
            v@ == page_order(),
    {
        let v = vec![
            SettingsPage::General,
            SettingsPage::Movement,
            SettingsPage::Grid,
            SettingsPage::Shortcuts,
            SettingsPage::Appearance,
            SettingsPage::About,
        ];
        proof {
            assert(v@ =~= page_order());
        }
        v
    }

    pub open spec fn spec_title(self) -> Seq<char> {
        match self {
            SettingsPage::General => "General"@,
            SettingsPage::Movement => "Movement"@,
            SettingsPage::Grid => "Grid"@,
            SettingsPage::Shortcuts => "Shortcuts"@,
            SettingsPage::Appearance => "Appearance"@,
            SettingsPage::About => "About"@,
        }
    }

    /// Sidebar label shown by native hosts.
    pub fn title(self) -> (s: &'static str)
        ensures
            s@ == self.spec_title(),
    {
        match self {
            SettingsPage::General => "General",
            SettingsPage::Movement => "Movement",
            SettingsPage::Grid => "Grid",
            SettingsPage::Shortcuts => "Shortcuts",
            SettingsPage::Appearance => "Appearance",
            SettingsPage::About => "About",
        }
    }
}

#[derive(Debug, Clone, Copy, PartialEq, Eq, Structural)]
pub enum SettingKind {
    Toggle,
    Text,
    Number,
    Choice,
    Shortcut,
    Color,
}

#[derive(Debug, Clone, Copy, PartialEq, Eq)]
pub struct SettingDescriptor {
    pub key: &'static str,
    pub page: SettingsPage,
    pub title: &'static str,
    pub description: &'static str,
    pub example: &'static str,
    pub kind: SettingKind,
}

/// A descriptor's texts as characters.
pub type DescriptorView = (Seq<char>, SettingsPage, Seq<char>, Seq<char>, Seq<char>, SettingKind);

pub open spec fn descriptor_view(d: SettingDescriptor) -> DescriptorView {
    (d.key@, d.page, d.title@, d.description@, d.example@, d.kind)
}

/// The settings hosts render, in display order.
pub open spec fn descriptor_table() -> Seq<DescriptorView> {
    seq![
        (("enabled")@, SettingsPage::General, ("Enabled")@, ("Turn keyboard pointer control on or off.")@, ("On")@, SettingKind::Toggle),
        (("leader")@, SettingsPage::General, ("Activation key")@, ("Hold this key to control the pointer.")@, ("CapsLock")@, SettingKind::Shortcut),
        (("hold_ms")@, SettingsPage::General, ("Hold delay")@, ("Wait before pointer mode starts.")@, ("200 ms")@, SettingKind::Number),
        (("start_speed")@, SettingsPage::Movement, ("Start speed")@, ("Pointer speed when movement begins.")@, ("300 px/s")@, SettingKind::Number),
        (("max_speed")@, SettingsPage::Movement, ("Maximum speed")@, ("Fastest pointer speed after ramp-up.")@, ("3000 px/s")@, SettingKind::Number),
        (("ramp_ms")@, SettingsPage::Movement, ("Ramp duration")@, ("Time to accelerate from start to maximum speed.")@, ("500 ms")@, SettingKind::Number),
        (("layout")@, SettingsPage::Grid, ("Grid style")@, ("Choose the grid workflow used for target selection.")@, ("Dense")@, SettingKind::Choice),
        (("nested_size")@, SettingsPage::Grid, ("Subgrid size")@, ("Rows and columns in the fine-selection grid.")@, ("3 × 10")@, SettingKind::Number),
        (("nudge_enabled")@, SettingsPage::Grid, ("Nudge after selection")@, ("Make small pointer adjustments before clicking.")@, ("On")@, SettingKind::Toggle),
        (("mouse_bindings")@, SettingsPage::Shortcuts, ("Pointer shortcuts")@, ("Keys for moving, clicking, dragging, and scrolling.")@, ("J → move right")@, SettingKind::Shortcut),
        (("color_panel")@, SettingsPage::Appearance, ("Panel color")@, ("Background behind grid labels.")@, ("181C26")@, SettingKind::Color),
        (("color_label")@, SettingsPage::Appearance, ("Label color")@, ("Color used for grid letters.")@, ("F0F6FF")@, SettingKind::Color),
        (("about")@, SettingsPage::About, ("About Clickless")@, ("Keyboard-driven pointer control. Built with Rust and WinUI 3.")@, ("Clickless v0.1.0 – a lightweight pointer control application.")@, SettingKind::Text),
    ]
}

/// Every setting descriptor, in display order.
pub fn settings() -> (v: Vec<SettingDescriptor>)
    ensures
        v@.map_values(|d: SettingDescriptor| descriptor_view(d)) == descriptor_table(),
{
    let mut v: Vec<SettingDescriptor> = Vec::new();
    v.push(SettingDescriptor {
        key: "enabled",
        page: SettingsPage::General,
        title: "Enabled",
        description: "Turn keyboard pointer control on or off.",
        example: "On",
        kind: SettingKind::Toggle,
    });
    v.push(SettingDescriptor {
        key: "leader",
        page: SettingsPage::General,
        title: "Activation key",
        description: "Hold this key to control the pointer.",
        example: "CapsLock",
        kind: SettingKind::Shortcut,
    });
    v.push(SettingDescriptor {
        key: "hold_ms",
        page: SettingsPage::General,
        title: "Hold delay",
        description: "Wait before pointer mode starts.",
        example: "200 ms",
        kind: SettingKind::Number,
    });
    v.push(SettingDescriptor {
        key: "start_speed",
        page: SettingsPage::Movement,
        title: "Start speed",
        description: "Pointer speed when movement begins.",
        example: "300 px/s",
        kind: SettingKind::Number,
    });
    v.push(SettingDescriptor {
        key: "max_speed",
        page: SettingsPage::Movement,
        title: "Maximum speed",
        description: "Fastest pointer speed after ramp-up.",
        example: "3000 px/s",
        kind: SettingKind::Number,
    });
    v.push(SettingDescriptor {
        key: "ramp_ms",
        page: SettingsPage::Movement,
        title: "Ramp duration",
        description: "Time to accelerate from start to maximum speed.",
        example: "500 ms",
        kind: SettingKind::Number,
    });
    v.push(SettingDescriptor {
        key: "layout",
        page: SettingsPage::Grid,
        title: "Grid style",
        description: "Choose the grid workflow used for target selection.",
        example: "Dense",
        kind: SettingKind::Choice,
    });
    v.push(SettingDescriptor {
        key: "nested_size",
        page: SettingsPage::Grid,
        title: "Subgrid size",
        description: "Rows and columns in the fine-selection grid.",
        example: "3 × 10",
        kind: SettingKind::Number,
    });
    v.push(SettingDescriptor {
        key: "nudge_enabled",
        page: SettingsPage::Grid,
        title: "Nudge after selection",
        description: "Make small pointer adjustments before clicking.",
        example: "On",
        kind: SettingKind::Toggle,
    });
    v.push(SettingDescriptor {
        key: "mouse_bindings",
        page: SettingsPage::Shortcuts,
        title: "Pointer shortcuts",
        description: "Keys for moving, clicking, dragging, and scrolling.",
        example: "J → move right",
        kind: SettingKind::Shortcut,
    });
    v.push(SettingDescriptor {
        key: "color_panel",
        page: SettingsPage::Appearance,
        title: "Panel color",
        description: "Background behind grid labels.",
        example: "181C26",
        kind: SettingKind::Color,
    });
    v.push(SettingDescriptor {
        key: "color_label",
        page: SettingsPage::Appearance,
        title: "Label color",
        description: "Color used for grid letters.",
        example: "F0F6FF",
        kind: SettingKind::Color,
    });
    v.push(SettingDescriptor {
        key: "about",
        page: SettingsPage::About,
        title: "About Clickless",
        description: "Keyboard-driven pointer control. Built with Rust and WinUI 3.",
        example: "Clickless v0.1.0 – a lightweight pointer control application.",
        kind: SettingKind::Text,
    });
    proof {
        assert(v@.map_values(|d: SettingDescriptor| descriptor_view(d)) =~= descriptor_table());
    }
    v
}

/// How many of the descriptors each page lists, summed over the pages.
pub open spec fn page_count_sum(s: Seq<DescriptorView>) -> nat {
    s.filter(on_page(SettingsPage::General)).len() + s.filter(on_page(SettingsPage::Movement)).len()
        + s.filter(on_page(SettingsPage::Grid)).len() + s.filter(on_page(SettingsPage::Shortcuts)).len()
        + s.filter(on_page(SettingsPage::Appearance)).len() + s.filter(on_page(SettingsPage::About)).len()
}

proof fn lemma_pages_partition(s: Seq<DescriptorView>)
    ensures
        page_count_sum(s) == s.len(),
    decreases s.len(),
{
    if s.len() > 0 {
        let init = s.drop_last();
        let x = s.last();
        lemma_pages_partition(init);
        assert(s =~= init.push(x));
        init.lemma_filter_push(x, on_page(SettingsPage::General));
        init.lemma_filter_push(x, on_page(SettingsPage::Movement));
        init.lemma_filter_push(x, on_page(SettingsPage::Grid));
        init.lemma_filter_push(x, on_page(SettingsPage::Shortcuts));
        init.lemma_filter_push(x, on_page(SettingsPage::Appearance));
        init.lemma_filter_push(x, on_page(SettingsPage::About));
    }
}

/// The pages split the settings between them: every setting is listed on
/// exactly one page, so the pages' counts add up to the whole table.
pub proof fn law_pages_partition_the_settings()
    ensures
        page_count_sum(descriptor_table()) == descriptor_table().len(),
{
    lemma_pages_partition(descriptor_table());
}

/// Every page of the settings window lists at least one setting.
pub proof fn law_every_page_has_a_setting(page: SettingsPage)
    ensures
        page_table(page).len() > 0,
{
    let t = descriptor_table();
    let i: int = match page {
        SettingsPage::General => 0,
        SettingsPage::Movement => 3,
        SettingsPage::Grid => 6,
        SettingsPage::Shortcuts => 9,
        SettingsPage::Appearance => 10,
        SettingsPage::About => 12,
    };
    t.lemma_filter_contains(on_page(page), i);
    assert(on_page(page)(t[i]));
    assert(t.filter(on_page(page)).contains(t[i]));
}

/// The descriptors of one page, in display order.
pub open spec fn page_table(page: SettingsPage) -> Seq<DescriptorView> {
    descriptor_table().filter(on_page(page))
}

/// Whether a descriptor belongs to the page.
pub open spec fn on_page(page: SettingsPage) -> spec_fn(DescriptorView) -> bool {
    |d: DescriptorView| d.1 == page
}

/// The descriptors of one page, in display order.
pub fn settings_for(page: SettingsPage) -> (v: Vec<SettingDescriptor>)
    ensures
        v@.map_values(|d: SettingDescriptor| descriptor_view(d)) == page_table(page),
{
    let all = settings();
    let ghost table = descriptor_table();
    let ghost pred = on_page(page);
    let mut v: Vec<SettingDescriptor> = Vec::new();
    let mut i: usize = 0;
    while i < all.len()
        invariant
            i <= all.len(),
            all@.map_values(|d: SettingDescriptor| descriptor_view(d)) == table,
            pred == on_page(page),
            v@.map_values(|d: SettingDescriptor| descriptor_view(d)) == table.take(i as int).filter(pred),
        decreases all.len() - i,
    {
        proof {
            reveal(Seq::filter);
            assert(table.take(i as int + 1).drop_last() =~= table.take(i as int));
            assert(table.take(i as int + 1).last() == table[i as int]);
            assert(table[i as int] == descriptor_view(all@[i as int]));
        }
        let d = all[i];
        if d.page == page {
            let ghost before = v@;
            v.push(d);
            proof {
                assert(v@.map_values(|d: SettingDescriptor| descriptor_view(d))
                    =~= before.map_values(|d: SettingDescriptor| descriptor_view(d)).push(descriptor_view(d)));
            }
        }
        i = i + 1;
    }
    proof {
        assert(table.take(all.len() as int) =~= table);
    }
    v
}

} // verus!
