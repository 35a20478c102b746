use crate::image::{Image, ImageData};
use vstd::prelude::*;

verus! {

/// How a window is shown.
#[derive(Clone, Copy, Debug, PartialEq, Eq, Structural)]
pub enum WindowState {
    Normal,
    Minimized,
    Maximized,
    Closed,
}

/// A registered application: its identifier, its title, where its window
/// lies and how large it is, how the window is shown, its icon and its text.
pub struct App {
    pub id: u32,
    pub name: &'static str,
    pub x: usize,
    pub y: usize,
    pub w: usize,
    pub h: usize,
    pub state: WindowState,
    pub icon: Option<&'static Image>,
    pub body: String,
}

/// What an application holds, as plain values.
pub struct AppView {
    pub id: u32,
    pub name: Seq<char>,
    pub x: usize,
    pub y: usize,
    pub w: usize,
    pub h: usize,
    pub state: WindowState,
    pub icon: Option<ImageData>,
    pub body: Seq<char>,
}

impl View for App {
    type V = AppView;

    open spec fn view(&self) -> AppView {
        AppView {
            id: self.id,
            name: self.name@,
            x: self.x,
            y: self.y,
            w: self.w,
            h: self.h,
            state: self.state,
            icon: match self.icon {
                Some(img) => Some(img@),
                None => None,
            },
            body: self.body@,
        }
    }
}

/// What a list of applications holds.
pub open spec fn app_views(apps: Seq<App>) -> Seq<AppView> {
    Seq::new(apps.len(), |i: int| apps[i]@)
}

/// The identifier that the next application gets: one more than the number
/// of those registered, of which the low 32 bits count.
pub open spec fn next_id(count: nat) -> u32 {
    ((count % 0x1_0000_0000) as u32).wrapping_add(1)
}

/// The list after every application with the identifier `id` but the first
/// was left as it is, and the first got the state `st`.
pub open spec fn with_window_state(apps: Seq<AppView>, id: u32, st: WindowState) -> Seq<AppView> {
    Seq::new(
        apps.len(),
        |i: int|
            if apps[i].id == id && (forall|j: int| 0 <= j < i ==> (#[trigger] apps[j]).id != id) {
                AppView { state: st, ..apps[i] }
            } else {
                apps[i]
            },
    )
}

/// Registers an application with a window in the normal state, and returns
/// its identifier.
pub fn spawn(
    apps: &mut Vec<App>,
    name: &'static str,
    x: usize,
    y: usize,
    w: usize,
    h: usize,
    icon: Option<&'static Image>,
    body: String,
) -> (id: u32)
    ensures
        id == next_id(old(apps)@.len()),
        final(apps)@ == old(apps)@.push(App { id, name, x, y, w, h, state: WindowState::Normal, icon, body }),
{
    let count: u32 = (apps.len() as u64 % 0x1_0000_0000) as u32;
    let id = count.wrapping_add(1);
    apps.push(App { id, name, x, y, w, h, state: WindowState::Normal, icon, body });
    id
}

/// Sets how the window of the first application with the identifier `id` is
/// shown. Without such an application nothing changes.
pub fn set_state(apps: &mut Vec<App>, id: u32, st: WindowState)
    ensures
        app_views(final(apps)@) == with_window_state(app_views(old(apps)@), id, st),
{
    let mut i: usize = 0;
    while i < apps.len()
        invariant
            i <= apps@.len(),
            apps@ == old(apps)@,
            forall|j: int| 0 <= j < i ==> (#[trigger] app_views(apps@)[j]).id != id,
        decreases apps@.len() - i,
    {
        if apps[i].id == id {
            apps[i].state = st;
            proof {
                let a = app_views(old(apps)@);
                let b = app_views(apps@);
                assert forall|k: int| 0 <= k < a.len() implies b[k] == with_window_state(a, id, st)[k] by {
                    if k < i {
                        assert(a[k].id != id);
                    } else if k > i {
                        assert(a[i as int].id == id);
                    }
                }
                assert(b =~= with_window_state(a, id, st));
            }
            return ;
        }
        i += 1;
    }
    proof {
        let a = app_views(old(apps)@);
        assert(app_views(apps@) =~= with_window_state(a, id, st));
    }
}

/// A copy of the list of applications.
pub fn list(apps: &Vec<App>) -> (copy: Vec<App>)
    ensures
        app_views(copy@) == app_views(apps@),
{
    let mut copy: Vec<App> = Vec::new();
    let mut i: usize = 0;
    while i < apps.len()
        invariant
            i <= apps@.len(),
            app_views(copy@) == app_views(apps@.take(i as int)),
        decreases apps@.len() - i,
    {
        let a = &apps[i];
        let ghost had = app_views(copy@);
        let twin = App { id: a.id, name: a.name, x: a.x, y: a.y, w: a.w, h: a.h, state: a.state, icon: a.icon, body: a.body.clone() };
        proof {
            assert(twin@ == apps@[i as int]@);
        }
        copy.push(twin);
        proof {
            assert(app_views(copy@) =~= had.push(twin@));
            assert(app_views(apps@.take(i + 1)) =~= app_views(apps@.take(i as int)).push(apps@[i as int]@));
        }
        i += 1;
    }
    proof {
        assert(apps@.take(i as int) =~= apps@);
    }
    copy
}

} // verus!
