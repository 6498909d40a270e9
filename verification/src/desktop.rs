//! The desktop: a column of icons, each of which launches an application window.
use vstd::prelude::*;
use crate::types::{Point, Rect};

verus! {

#[derive(Debug, Clone, Copy, PartialEq, Eq, Structural)]
pub enum DesktopAction {
    OpenTerminal,
    OpenFileManager,
    OpenAbout,
    OpenAIAgent,
}

#[derive(Debug)]
pub struct DesktopIcon {
    pub rect: Rect,
    pub label: String,
    pub action: DesktopAction,
}

pub struct DesktopIconView {
    pub rect: Rect,
    pub label: Seq<char>,
    pub action: DesktopAction,
}

impl View for DesktopIcon {
    type V = DesktopIconView;

    open spec fn view(&self) -> DesktopIconView {
        DesktopIconView { rect: self.rect, label: self.label@, action: self.action }
    }
}

#[derive(Debug)]
pub struct Desktop {
    pub icons: Vec<DesktopIcon>,
}

/// The 64x64 square of the icon in row `row` of the icon column.
pub open spec fn icon_rect(row: int) -> Rect {
    Rect { x: 20, y: (40 + 100 * row) as i32, w: 64, h: 64 }
}

/// The icons a new desktop shows, top to bottom.
pub open spec fn default_icons() -> Seq<DesktopIconView> {
    seq![
        DesktopIconView {
            rect: icon_rect(0),
            label: seq!['T', 'e', 'r', 'm', 'i', 'n', 'a', 'l'],
            action: DesktopAction::OpenTerminal,
        },
        DesktopIconView {
            rect: icon_rect(1),
            label: seq!['F', 'i', 'l', 'e', 's'],
            action: DesktopAction::OpenFileManager,
        },
        DesktopIconView {
            rect: icon_rect(2),
            label: seq!['A', 'I', ' ', 'A', 'g', 'e', 'n', 't'],
            action: DesktopAction::OpenAIAgent,
        },
        DesktopIconView {
            rect: icon_rect(3),
            label: seq!['A', 'b', 'o', 'u', 't'],
            action: DesktopAction::OpenAbout,
        },
    ]
}

/// `i` is the first icon (in order) whose square holds `p`.
pub open spec fn is_first_icon_at(s: Seq<DesktopIconView>, p: Point, i: int) -> bool {
    &&& 0 <= i < s.len()
    &&& s[i].rect.has_point(p)
    &&& forall|j: int| 0 <= j < i ==> !(#[trigger] s[j].rect.has_point(p))
}

/// The action of the first icon (in order) whose square holds `p`.
pub open spec fn icon_at(s: Seq<DesktopIconView>, p: Point) -> Option<DesktopAction> {
    if exists|i: int| is_first_icon_at(s, p, i) {
        Some(s[choose|i: int| is_first_icon_at(s, p, i)].action)
    } else {
        None
    }
}

/// Each icon that the search reaches can be tested without leaving `i32`.
pub open spec fn icon_search_defined(s: Seq<DesktopIconView>, p: Point) -> bool {
    forall|i: int|
        0 <= i < s.len() && (forall|j: int| 0 <= j < i ==> !(#[trigger] s[j].rect.has_point(p)))
            ==> #[trigger] s[i].rect.contains_defined(p)
}

impl Desktop {
    pub open spec fn icons_view(self) -> Seq<DesktopIconView> {
        self.icons@.map_values(|i: DesktopIcon| i@)
    }

    pub fn new() -> (d: Self)
        ensures
            d.icons_view() == default_icons(),
    {
        let mut icons = Vec::new();
        let terminal = "Terminal";
        let files = "Files";
        let agent = "AI Agent";
        let about = "About";
        proof {
            reveal_strlit("Terminal");
            reveal_strlit("Files");
            reveal_strlit("AI Agent");
            reveal_strlit("About");
            assert(terminal@ =~= default_icons()[0].label);
            assert(files@ =~= default_icons()[1].label);
            assert(agent@ =~= default_icons()[2].label);
            assert(about@ =~= default_icons()[3].label);
        }
        icons.push(
            DesktopIcon {
                rect: Rect::new(20, 40, 64, 64),
                label: terminal.to_owned(),
                action: DesktopAction::OpenTerminal,
            },
        );
        icons.push(
            DesktopIcon {
                rect: Rect::new(20, 140, 64, 64),
                label: files.to_owned(),
                action: DesktopAction::OpenFileManager,
            },
        );
        icons.push(
            DesktopIcon {
                rect: Rect::new(20, 240, 64, 64),
                label: agent.to_owned(),
                action: DesktopAction::OpenAIAgent,
            },
        );
        icons.push(
            DesktopIcon {
                rect: Rect::new(20, 340, 64, 64),
                label: about.to_owned(),
                action: DesktopAction::OpenAbout,
            },
        );
        let d = Self { icons };
        assert(d.icons_view() =~= default_icons());
        d
    }

    /// Whether `hit_icon(p)` can run, and if so whether it would find an icon.
    pub fn search_ok(&self, p: Point) -> (r: (bool, bool))
        ensures
            r.0 == icon_search_defined(self.icons_view(), p),
            r.0 ==> (r.1 == icon_at(self.icons_view(), p) is Some),
    {
        let ghost s = self.icons_view();
        let mut i: usize = 0;
        while i < self.icons.len()
            invariant
                i <= self.icons@.len(),
                s == self.icons_view(),
                forall|j: int| 0 <= j < i ==> !(#[trigger] s[j].rect.has_point(p)),
                forall|j: int| 0 <= j < i ==> (#[trigger] s[j].rect).contains_defined(p),
            decreases self.icons.len() - i,
        {
            assert(s[i as int].rect == self.icons@[i as int].rect);
            if !self.icons[i].rect.contains_ok(p) {
                return (false, false);
            }
            if self.icons[i].rect.contains(p) {
                proof {
                    assert(is_first_icon_at(s, p, i as int));
                    assert forall|k: int|
                        0 <= k < s.len() && (forall|j: int|
                            0 <= j < k ==> !(#[trigger] s[j].rect.has_point(p))) implies #[trigger] s[k].rect.contains_defined(
                        p,
                    ) by {
                        if k > i {
                            assert(s[i as int].rect.has_point(p));
                        }
                    }
                }
                return (true, true);
            }
            i = i + 1;
        }
        proof {
            if exists|k: int| is_first_icon_at(s, p, k) {
                let k = choose|k: int| is_first_icon_at(s, p, k);
                assert(!s[k].rect.has_point(p));
            }
        }
        (true, false)
    }

    pub fn hit_icon(&self, p: Point) -> (r: Option<&DesktopAction>)
        requires
            icon_search_defined(self.icons_view(), p),
        ensures
            match r {
                Some(a) => Some(*a),
                None => None,
            } == icon_at(self.icons_view(), p),
    {
        let ghost s = self.icons_view();
        let mut i: usize = 0;
        while i < self.icons.len()
            invariant
                i <= self.icons@.len(),
                icon_search_defined(self.icons_view(), p),
                s == self.icons_view(),
                forall|j: int| 0 <= j < i ==> !(#[trigger] self.icons_view()[j].rect.has_point(p)),
            decreases self.icons.len() - i,
        {
            assert(self.icons_view()[i as int].rect == self.icons[i as int].rect);
            if self.icons[i].rect.contains(p) {
                assert(self.icons_view()[i as int].action == self.icons[i as int].action);
                proof {
                    assert(is_first_icon_at(s, p, i as int));
                    let k = choose|k: int| is_first_icon_at(s, p, k);
                    if k < i {
                        assert(!s[k].rect.has_point(p));
                    }
                    if i < k {
                        assert(s[i as int].rect.has_point(p));
                    }
                }
                return Some(&self.icons[i].action);
            }
            i = i + 1;
        }
        proof {
            if exists|k: int| is_first_icon_at(s, p, k) {
                let k = choose|k: int| is_first_icon_at(s, p, k);
                assert(!s[k].rect.has_point(p));
            }
        }
        None
    }
}

/// The icons of a new desktop never overlap, so at most one of them holds any point,
/// and every point of the icon column between them belongs to none.
pub proof fn lemma_default_icons_disjoint(p: Point, i: int, j: int)
    requires
        0 <= i < 4,
        0 <= j < 4,
        default_icons()[i].rect.has_point(p),
        default_icons()[j].rect.has_point(p),
    ensures
        i == j,
{
}

} // verus!
