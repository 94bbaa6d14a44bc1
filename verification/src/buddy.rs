//! The bookkeeping that a flat menu keeps for its single component.

use vstd::prelude::*;
use crate::region::DrawnRegion;

verus! {

/// The kinds of events that a component has asked to be told about.
#[derive(Clone, Copy, Debug, PartialEq, Eq, Structural)]
pub struct ComponentSubscriptions {
    pub mouse_click: bool,
    pub mouse_click_out: bool,
}

impl ComponentSubscriptions {
    /// No subscription at all.
    pub fn new() -> (subscriptions: ComponentSubscriptions)
        ensures
            !subscriptions.mouse_click,
            !subscriptions.mouse_click_out,
    {
        ComponentSubscriptions { mouse_click: false, mouse_click_out: false }
    }
}

/// What a component reports after it has rendered itself.
pub struct RenderResultStruct<R: DrawnRegion> {
    /// The part of its domain in which the component has drawn.
    pub drawn_region: R,
    /// Whether mouse events outside the drawn region are kept from the
    /// component.
    pub filter_mouse_actions: bool,
}

/// The state that a flat menu keeps for its component: its subscriptions,
/// the result of its last rendering, a pending change of menu, and whether
/// it asked to be rendered or changed anything since these were last
/// cleared.
///
/// `M` is the type of a menu, and `F` that of the function which, handed the
/// current menu, makes the next one.
#[verifier::reject_recursive_types(M)]
pub struct SimpleFlatBuddy<R: DrawnRegion, M, F: Fn(M) -> M> {
    pub subscriptions: ComponentSubscriptions,
    pub last_render_result: Option<RenderResultStruct<R>>,
    pub create_next_menu: Option<F>,
    pub requested_render: bool,
    pub has_changes: bool,
    pub menu: core::marker::PhantomData<M>,
}

impl<R: DrawnRegion, M, F: Fn(M) -> M> SimpleFlatBuddy<R, M, F> {
    /// The state of a component that was just attached: nothing subscribed,
    /// nothing rendered, no change of menu pending. A component is always
    /// rendered right after it is attached, so the request for it is
    /// already there, and it counts as a change.
    pub fn new() -> (buddy: Self)
        ensures
            buddy.subscriptions == (ComponentSubscriptions {
                mouse_click: false,
                mouse_click_out: false,
            }),
            buddy.last_render_result.is_none(),
            buddy.create_next_menu.is_none(),
            buddy.requested_render,
            buddy.has_changes,
    {
        Self {
            subscriptions: ComponentSubscriptions::new(),
            last_render_result: None,
            create_next_menu: None,
            requested_render: true,
            has_changes: true,
            menu: core::marker::PhantomData,
        }
    }

    /// The subscriptions of the component.
    pub fn get_subscriptions(&self) -> (subscriptions: &ComponentSubscriptions)
        ensures
            *subscriptions == self.subscriptions,
    {
        &self.subscriptions
    }

    /// Whether the component has asked to be rendered.
    pub fn did_request_render(&self) -> (requested: bool)
        ensures
            requested == self.requested_render,
    {
        self.requested_render
    }

    /// Withdraws the request to be rendered; nothing else changes.
    pub fn clear_render_request(&mut self)
        ensures
            !final(self).requested_render,
            final(self).subscriptions == old(self).subscriptions,
            final(self).last_render_result == old(self).last_render_result,
            final(self).create_next_menu == old(self).create_next_menu,
            final(self).has_changes == old(self).has_changes,
    {
        self.requested_render = false;
    }

    /// Whether anything changed since the changes were last cleared.
    pub fn has_changes(&self) -> (changed: bool)
        ensures
            changed == self.has_changes,
    {
        self.has_changes
    }

    /// Forgets that anything changed; nothing else changes.
    pub fn clear_changes(&mut self)
        ensures
            !final(self).has_changes,
            final(self).subscriptions == old(self).subscriptions,
            final(self).last_render_result == old(self).last_render_result,
            final(self).create_next_menu == old(self).create_next_menu,
            final(self).requested_render == old(self).requested_render,
    {
        self.has_changes = false;
    }

    /// The result of the last rendering, if there was one.
    pub fn get_last_render_result(&self) -> (result: &Option<RenderResultStruct<R>>)
        ensures
            *result == self.last_render_result,
    {
        &self.last_render_result
    }

    /// Records `result` as the result of the last rendering; nothing else
    /// changes.
    pub fn set_last_render_result(&mut self, result: RenderResultStruct<R>)
        ensures
            final(self).last_render_result == Some(result),
            final(self).subscriptions == old(self).subscriptions,
            final(self).create_next_menu == old(self).create_next_menu,
            final(self).requested_render == old(self).requested_render,
            final(self).has_changes == old(self).has_changes,
    {
        self.last_render_result = Some(result);
    }

    /// Whether a change of menu is pending.
    pub fn has_next_menu(&self) -> (pending: bool)
        ensures
            pending == self.create_next_menu.is_some(),
    {
        self.create_next_menu.is_some()
    }

    /// Makes the next menu from the current one with the pending function,
    /// which is then no longer pending. To be called only while
    /// [`Self::has_next_menu`] holds.
    pub fn create_next_menu(&mut self, current_menu: M) -> (new_menu: M)
        requires
            old(self).create_next_menu.is_some(),
            call_requires(old(self).create_next_menu.unwrap(), (current_menu,)),
        ensures
            call_ensures(old(self).create_next_menu.unwrap(), (current_menu,), new_menu),
            final(self).create_next_menu.is_none(),
            final(self).subscriptions == old(self).subscriptions,
            final(self).last_render_result == old(self).last_render_result,
            final(self).requested_render == old(self).requested_render,
            final(self).has_changes == old(self).has_changes,
    {
        let new_menu = match &self.create_next_menu {
            Some(create) => create(current_menu),
            None => vstd::pervasive::unreached(),
        };
        self.create_next_menu = None;
        new_menu
    }

    /// Makes `create_new_menu` the pending change of menu, in place of any
    /// earlier one, and notes a change.
    pub fn change_menu(&mut self, create_new_menu: F)
        ensures
            final(self).create_next_menu == Some(create_new_menu),
            final(self).has_changes,
            final(self).subscriptions == old(self).subscriptions,
            final(self).last_render_result == old(self).last_render_result,
            final(self).requested_render == old(self).requested_render,
    {
        self.create_next_menu = Some(create_new_menu);
        self.has_changes = true;
    }

    /// Asks for a rendering. Where none was asked for yet, this is a change.
    pub fn request_render(&mut self)
        ensures
            final(self).requested_render,
            final(self).has_changes == (old(self).has_changes || !old(self).requested_render),
            final(self).subscriptions == old(self).subscriptions,
            final(self).last_render_result == old(self).last_render_result,
            final(self).create_next_menu == old(self).create_next_menu,
    {
        if !self.requested_render {
            self.requested_render = true;
            self.has_changes = true;
        }
    }

    /// Subscribes to clicks inside the component. Where it was not
    /// subscribed yet, this is a change.
    pub fn subscribe_mouse_click(&mut self)
        ensures
            final(self).subscriptions == (ComponentSubscriptions {
                mouse_click: true,
                ..old(self).subscriptions
            }),
            final(self).has_changes == (old(self).has_changes
                || !old(self).subscriptions.mouse_click),
            final(self).last_render_result == old(self).last_render_result,
            final(self).create_next_menu == old(self).create_next_menu,
            final(self).requested_render == old(self).requested_render,
    {
        if !self.subscriptions.mouse_click {
            self.subscriptions.mouse_click = true;
            self.has_changes = true;
        }
    }

    /// Ends the subscription to clicks inside the component. Where it was
    /// subscribed, this is a change.
    pub fn unsubscribe_mouse_click(&mut self)
        ensures
            final(self).subscriptions == (ComponentSubscriptions {
                mouse_click: false,
                ..old(self).subscriptions
            }),
            final(self).has_changes == (old(self).has_changes
                || old(self).subscriptions.mouse_click),
            final(self).last_render_result == old(self).last_render_result,
            final(self).create_next_menu == old(self).create_next_menu,
            final(self).requested_render == old(self).requested_render,
    {
        if self.subscriptions.mouse_click {
            self.subscriptions.mouse_click = false;
            self.has_changes = true;
        }
    }

    /// Subscribes to clicks outside the component. Where it was not
    /// subscribed yet, this is a change.
    pub fn subscribe_mouse_click_out(&mut self)
        ensures
            final(self).subscriptions == (ComponentSubscriptions {
                mouse_click_out: true,
                ..old(self).subscriptions
            }),
            final(self).has_changes == (old(self).has_changes
                || !old(self).subscriptions.mouse_click_out),
            final(self).last_render_result == old(self).last_render_result,
            final(self).create_next_menu == old(self).create_next_menu,
            final(self).requested_render == old(self).requested_render,
    {
        if !self.subscriptions.mouse_click_out {
            self.subscriptions.mouse_click_out = true;
            self.has_changes = true;
        }
    }

    /// Ends the subscription to clicks outside the component. Where it was
    /// subscribed, this is a change.
    pub fn unsubscribe_mouse_click_out(&mut self)
        ensures
            final(self).subscriptions == (ComponentSubscriptions {
                mouse_click_out: false,
                ..old(self).subscriptions
            }),
            final(self).has_changes == (old(self).has_changes
                || old(self).subscriptions.mouse_click_out),
            final(self).last_render_result == old(self).last_render_result,
            final(self).create_next_menu == old(self).create_next_menu,
            final(self).requested_render == old(self).requested_render,
    {
        if self.subscriptions.mouse_click_out {
            self.subscriptions.mouse_click_out = false;
            self.has_changes = true;
        }
    }
}

} // verus!
