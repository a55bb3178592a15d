use crate::menu::{MenuGetSet, MenuView};
use core::marker::PhantomData;
use vstd::prelude::*;

verus! {

/// What a menu plugin is set up with: the name of the menu and the state of
/// the application that owns it.
pub struct MenuPluginView<S> {
    pub name: Seq<char>,
    pub state: S,
}

/// The set-up of a menu in an application. `R` is the resource that holds the
/// menu, `S` the type of the states of the application.
///
/// One state of the application owns the menu. The scheduler of the
/// application resets the menu when that state is entered, and while the state
/// lasts it runs, on each pass, the phase of the menu that is due.
pub struct MenuPlugin<R: MenuGetSet, S: Copy> {
    name: String,
    state: S,
    _marker: PhantomData<R>,
}

impl<R: MenuGetSet, S: Copy> View for MenuPlugin<R, S> {
    type V = MenuPluginView<S>;

    closed spec fn view(&self) -> MenuPluginView<S> {
        MenuPluginView { name: self.name@, state: self.state }
    }
}

impl<R: MenuGetSet, S: Copy> MenuPlugin<R, S> {
    /// Makes `state` the state that owns the menu.
    pub fn with_state(&mut self, state: S) -> (plugin: &mut Self)
        ensures
            plugin@ == (MenuPluginView { name: old(self)@.name, state }),
            *final(self) == *final(plugin),
    {
        self.state = state;
        self
    }

    /// Gives the menu the name `name`.
    pub fn with_name(&mut self, name: &str) -> (plugin: &mut Self)
        ensures
            plugin@ == (MenuPluginView { name: name@, state: old(self)@.state }),
            *final(self) == *final(plugin),
    {
        self.name = name.to_owned();
        self
    }

    /// The name of the menu.
    pub fn name(&self) -> (name: &str)
        ensures
            name@ == self@.name,
    {
        self.name.as_str()
    }

    /// The state of the application that owns the menu.
    pub fn state(&self) -> (state: S)
        ensures
            state == self@.state,
    {
        self.state
    }

    /// The resource that the plugin puts into the application: a menu as it
    /// is created, under the name of the plugin.
    pub fn build(&self) -> (menu: R)
        ensures
            menu.model() == MenuView::<R::Key>::fresh().named(self@.name),
    {
        let mut menu: R = R::default();
        proof {
            R::default_is_fresh(menu);
        }
        menu.set_name(self.name.clone());
        menu
    }
}

impl<R: MenuGetSet, S: Copy + Default> Default for MenuPlugin<R, S> {
    /// A plugin for a menu without a name, owned by the default state.
    fn default() -> (plugin: Self)
        ensures
            plugin@.name == Seq::<char>::empty(),
            call_ensures(S::default, (), plugin@.state),
    {
        MenuPlugin { name: String::new(), state: S::default(), _marker: PhantomData }
    }
}

} // verus!
