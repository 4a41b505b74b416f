//! The application's state and its control loop.
//!
//! `Model::update` takes one message at a time. What needs the outside
//! world (the network, the window) it hands back as an action for the
//! caller to perform.

use vstd::prelude::*;
use crate::backend::loaded;
use crate::filter::{count_active, filtered, left_label, left_label_of, Filter};
use crate::history::{merged, text_of};
use crate::intents::{
    add_ops, add_plan, all_marked, any_left, capacity, clear_completed_ops, clear_plan, cleared,
    remove_ops, remove_plan, replace_plan, shown_at, toggle_all_ops, toggle_all_plan, toggle_ops,
    toggle_plan, toggled,
};
use crate::ops::{apply_ops, op_views, LocalChangeView};
use crate::items::{fresh_item, views, Item, ItemView, Items};
use crate::error::{DecodeError, LocalError, SyncError, UpdateError};
use crate::ops::InvalidChangeRequest;
use crate::store::Store;

verus! {

/// A peer to synchronize with.
#[derive(Debug)]
pub struct Remote {
    url: String,
}

impl View for Remote {
    type V = Seq<char>;

    closed spec fn view(&self) -> Seq<char> {
        self.url@
    }
}

impl Clone for Remote {
    fn clone(&self) -> (out: Remote)
        ensures
            out@ == self@,
    {
        Remote { url: self.url.clone() }
    }
}

impl Remote {
    /// The peer at `url`.
    pub fn new(url: String) -> (remote: Remote)
        ensures
            remote@ == url@,
    {
        Remote { url }
    }

    /// The peer's endpoint.
    pub fn url(&self) -> (url: &String)
        ensures
            url@ == self@,
    {
        &self.url
    }
}

/// What the control loop is asked to do.
#[derive(Debug)]
pub enum Msg {
    /// Nothing.
    NoOp,
    /// Put a new item with this text at the end of the list.
    Add { item: String },
    /// Delete the item that stands at `index` among the items shown.
    Remove { index: usize },
    /// Flip the `done` mark of the item at `index` of the whole list.
    Toggle { index: usize },
    /// Show the list through `filter`.
    Filter { filter: Filter },
    /// Mark every item shown as done, if one of them is not.
    ToggleAll,
    /// Delete every item that is done.
    ClearCompleted,
    /// End the program.
    Exit,
    /// Show the about dialog.
    MenuAbout,
    /// Add the peer at `url`, unless `url` is empty.
    AddRemote { url: String },
    /// Fetch and merge the history of the peer at `remote_index`.
    PullFromRemote { remote_index: usize },
    /// Send the whole history to the peer at `remote_index`.
    PushToRemote { remote_index: usize },
    /// A pull has ended and the list may have changed.
    PullComplete,
}

/// What the caller is to do once a message has been handled.
#[derive(Debug)]
pub enum UpdateAction {
    /// Nothing: what the user sees is still right.
    Nothing,
    /// Draw the state anew.
    Render,
    /// Fetch the history of the peer at `url` and hand it to `Model::receive`.
    Pull { url: String },
    /// Send `body`, the whole local history, to the peer at `url`.
    Push { url: String, body: Vec<u8> },
    /// Show the about dialog.
    About,
    /// End the program.
    Quit,
}

/// The window's title for a list saved under `file_name`, if under any.
pub open spec fn title_of(file_name: Option<Seq<char>>, saved: bool) -> Seq<char> {
    "TodoMVC - "@ + match file_name {
        Some(name) => name,
        None => "Untitled todo list"@,
    } + if saved {
        Seq::<char>::empty()
    } else {
        " *"@
    }
}

/// The application's state: the list, the filter through which it is
/// shown, whether it has been changed since it was last saved, and the peers.
pub struct Model {
    filter: Filter,
    clean: bool,
    remotes: Vec<Remote>,
    store: Store,
}

impl Model {
    /// The list.
    pub closed spec fn list(&self) -> Seq<ItemView> {
        self.store.items()
    }

    /// The identities of the recorded changes.
    pub closed spec fn history(&self) -> Set<Seq<u8>> {
        self.store.history()
    }

    /// The filter through which the list is shown.
    pub closed spec fn shown(&self) -> Filter {
        self.filter
    }

    /// Whether the list is as it was last saved.
    pub closed spec fn saved(&self) -> bool {
        self.clean
    }

    /// The peers' endpoints, in the order in which they were added.
    pub closed spec fn peers(&self) -> Seq<Seq<char>> {
        self.remotes@.map_values(|remote: Remote| remote@)
    }

    /// The view and the log are those of one well-formed store.
    pub closed spec fn coupled(&self) -> bool {
        self.store.wf()
    }

    /// The list is the projection of the recorded history, which is a todo list.
    pub open spec fn wf(&self) -> bool {
        &&& self.coupled()
        &&& self.history().finite()
        &&& crate::log::is_list(self.history())
        &&& self.list() == crate::log::projected(self.history())
    }

    /// The store takes the operations and then holds the list that they
    /// describe; what it has recorded for them, it hands out under `label`.
    pub closed spec fn takes(&self, label: Option<Seq<char>>, ops: Seq<LocalChangeView>) -> bool {
        self.store.takes(label, ops)
    }

    /// The encoding of the whole history, as a push sends it.
    pub closed spec fn encoding(&self) -> Seq<u8> {
        self.store.encoding()
    }

    /// The bytes decode to a history that the store admits, and merged
    /// with it the list is still a todo list.
    pub closed spec fn welcomes(&self, bytes: Seq<u8>) -> bool {
        self.store.welcomes(bytes)
    }

    /// The operations are carried out: they can be applied to the list, and
    /// there are none of them, so that nothing is staged, or the store takes
    /// them.
    pub open spec fn carries(&self, label: Option<Seq<char>>, ops: Seq<LocalChangeView>) -> bool {
        apply_ops(self.list(), ops) is Ok && (ops.len() == 0 || self.takes(label, ops))
    }

    /// Nothing differs from `before`.
    pub open spec fn same_as(&self, before: &Model) -> bool {
        &&& self.list() == before.list()
        &&& self.history() == before.history()
        &&& self.shown() == before.shown()
        &&& self.saved() == before.saved()
        &&& self.peers() == before.peers()
    }

    /// A local intent has made the list `after`: at most one new change was
    /// recorded for it, and the list counts as changed since it was last
    /// saved.
    pub open spec fn edited(&self, before: &Model, after: Seq<ItemView>) -> bool {
        &&& self.list() == after
        &&& self.shown() == before.shown()
        &&& !self.saved()
        &&& self.peers() == before.peers()
        &&& {
            ||| self.history() == before.history() && after == before.list()
            ||| exists|id: Seq<u8>|
                !before.history().contains(id) && self.history() == before.history().insert(id)
        }
    }

    /// The state that every replica starts from: the empty list, shown
    /// whole, unchanged, without peers.
    pub fn default() -> (out: Result<Model, DecodeError>)
        ensures
            match out {
                Ok(model) => {
                    &&& model.wf()
                    &&& model.list() == Seq::<ItemView>::empty()
                    &&& model.shown() == Filter::All
                    &&& model.saved()
                    &&& model.peers() == Seq::<Seq<char>>::empty()
                    &&& loaded(crate::log::INITIAL_DOCUMENT@) == Some(model.history())
                },
                Err(DecodeError::Malformed(_)) => loaded(crate::log::INITIAL_DOCUMENT@) is None,
                Err(DecodeError::Unexpected) => loaded(
                    crate::log::INITIAL_DOCUMENT@,
                ) matches Some(history) && crate::items::items_of(
                    crate::backend::materialized(history),
                ) != Ok::<Seq<ItemView>, Seq<char>>(Seq::empty()),
            },
    {
        match Store::new() {
            Ok(store) => {
                let model = Model { filter: Filter::All, clean: true, remotes: Vec::new(), store };
                assert(model.peers() =~= Seq::<Seq<char>>::empty());
                Ok(model)
            },
            Err(reason) => Err(reason),
        }
    }

    /// The items that `filter` lets through, in the order of the list.
    pub fn filter(&self, filter: Filter) -> (items: Vec<Item>)
        ensures
            views(items@) == filtered(self.list(), filter),
    {
        self.store.filtered(filter)
    }

    /// The whole list, in order.
    pub fn items(&self) -> (items: Items)
        ensures
            items@ == self.list(),
    {
        self.store.snapshot()
    }

    /// The footer text: how many items are not done.
    pub fn left_label(&self) -> (label: String)
        ensures
            label@ == left_label_of(count_active(self.list())),
    {
        let left = self.store.filtered(Filter::Active).len();
        left_label(left)
    }

    /// The window's title: the name of the file that the list was last
    /// saved to, and a mark where the list has changed since.
    pub fn title(&self, file_name: Option<&str>) -> (title: String)
        ensures
            title@ == title_of(
                match file_name {
                    Some(name) => Some(name@),
                    None => None,
                },
                self.saved(),
            ),
    {
        let mut title = String::from_str("TodoMVC - ");
        match file_name {
            Some(name) => title.append(name),
            None => title.append("Untitled todo list"),
        }
        if !self.clean {
            title.append(" *");
        }
        title
    }

    /// The filter through which the list is shown.
    pub fn current_filter(&self) -> (filter: Filter)
        ensures
            filter == self.shown(),
    {
        self.filter
    }

    /// Whether the list is as it was last saved.
    pub fn is_clean(&self) -> (clean: bool)
        ensures
            clean == self.saved(),
    {
        self.clean
    }

    /// Marks the list as saved.
    pub fn mark_clean(&mut self)
        ensures
            final(self).saved(),
            final(self).list() == old(self).list(),
            final(self).history() == old(self).history(),
            final(self).shown() == old(self).shown(),
            final(self).peers() == old(self).peers(),
            old(self).wf() ==> final(self).wf(),
    {
        self.clean = true;
    }

    /// The peers, in the order in which they were added.
    pub fn remotes(&self) -> (remotes: &Vec<Remote>)
        ensures
            remotes@.map_values(|remote: Remote| remote@) == self.peers(),
    {
        &self.remotes
    }

    /// How many changes have been recorded.
    pub fn recorded(&self) -> (count: usize)
        ensures
            count == self.history().len(),
    {
        self.store.recorded()
    }

    /// Records the operations of one intent and marks the list as changed.
    fn carry_out(
        &mut self,
        label: Option<String>,
        ops: Result<Vec<crate::ops::LocalChange>, InvalidChangeRequest>,
        Ghost(after): Ghost<Seq<ItemView>>,
    ) -> (out: Result<UpdateAction, UpdateError>)
        requires
            old(self).wf(),
            ops matches Ok(ops) ==> crate::ops::apply_ops(
                old(self).list(),
                crate::ops::op_views(ops@),
            ) == Ok::<Seq<ItemView>, InvalidChangeRequest>(after),
        ensures
            final(self).wf(),
            ops matches Ok(staged) ==> (out is Ok <==> old(self).carries(
                text_of(label),
                op_views(staged@),
            )),
            match out {
                Ok(action) => action is Render && ops is Ok && final(self).edited(old(self), after),
                Err(UpdateError::Intent(LocalError::Invalid(reason))) => ops == Err::<
                    Vec<crate::ops::LocalChange>,
                    InvalidChangeRequest,
                >(reason) && final(self).same_as(old(self)),
                Err(_) => ops is Ok && final(self).same_as(old(self)),
            },
    {
        let ops = match ops {
            Ok(ops) => ops,
            Err(reason) => {
                return Err(UpdateError::Intent(LocalError::Invalid(reason)));
            },
        };
        proof {
            self.store.lemma_takes_stages(text_of(label), op_views(ops@));
        }
        match self.store.commit(label, ops) {
            Ok(_) => {
                self.clean = false;
                Ok(UpdateAction::Render)
            },
            Err(reason) => Err(UpdateError::Intent(reason)),
        }
    }

    /// Add, with the item already made: puts `item` at the end of the list.
    pub fn add(&mut self, item: &Item) -> (out: Result<UpdateAction, UpdateError>)
        requires
            old(self).wf(),
        ensures
            final(self).wf(),
            out is Ok <==> old(self).list().len() <= capacity() && old(self).carries(
                Some("Add item"@),
                add_plan(old(self).list(), item@),
            ),
            match out {
                Ok(action) => action is Render && final(self).edited(
                    old(self),
                    old(self).list().push(item@),
                ),
                Err(UpdateError::Intent(LocalError::Invalid(reason))) => {
                    &&& reason == InvalidChangeRequest::OutOfBounds
                    &&& old(self).list().len() > capacity()
                    &&& final(self).same_as(old(self))
                },
                Err(_) => old(self).list().len() <= capacity() && final(self).same_as(old(self)),
            },
    {
        let ops = add_ops(self.store.items_ref(), item);
        self.carry_out(
            Some(String::from_str("Add item")),
            ops,
            Ghost(old(self).list().push(item@)),
        )
    }

    /// Replaces the list by `items`, as one change: for a list that was
    /// read from a file.
    pub fn replace(&mut self, items: &Vec<Item>) -> (out: Result<UpdateAction, UpdateError>)
        requires
            old(self).wf(),
        ensures
            final(self).wf(),
            out is Ok <==> items@.len() <= capacity() && old(self).carries(
                Some("Open"@),
                replace_plan(old(self).list().len(), views(items@)),
            ),
            match out {
                Ok(action) => action is Render && final(self).edited(old(self), views(items@)),
                Err(reason) => final(self).same_as(old(self)) && (reason == UpdateError::Intent(
                    LocalError::Invalid(InvalidChangeRequest::OutOfBounds),
                ) <==> items@.len() > capacity()),
            },
    {
        let ops = crate::intents::replace_ops(self.store.items_ref(), items);
        self.carry_out(Some(String::from_str("Open")), ops, Ghost(views(items@)))
    }

    /// Handles one message and says what the caller is to do next.
    ///
    /// A message that cannot be carried out leaves the model as it was.
    pub fn update(&mut self, msg: Msg) -> (out: Result<UpdateAction, UpdateError>)
        requires
            old(self).wf(),
        ensures
            final(self).wf(),
            out is Err ==> final(self).same_as(old(self)),
            match msg {
                Msg::NoOp => {
                    &&& out matches Ok(UpdateAction::Nothing)
                    &&& final(self).same_as(old(self))
                },
                Msg::Add { item } => {
                    &&& exists|id: Seq<char>|
                        {
                            &&& out is Ok <==> old(self).list().len() <= capacity() && old(
                                self,
                            ).carries(
                                Some("Add item"@),
                                add_plan(old(self).list(), #[trigger] fresh_item(item@, id)),
                            )
                            &&& out matches Ok(action) ==> action is Render && final(self).edited(
                                old(self),
                                old(self).list().push(fresh_item(item@, id)),
                            )
                        }
                    &&& out matches Err(reason) ==> (reason == UpdateError::Intent(
                        LocalError::Invalid(InvalidChangeRequest::OutOfBounds),
                    ) <==> old(self).list().len() > capacity())
                },
                Msg::Remove { index } => (forall|at: int| #[trigger]
                    shown_at(old(self).list(), old(self).shown(), index as nat, at) ==> (out is Ok
                        <==> at <= capacity() && old(self).carries(None, remove_plan(at))))
                    && match out {
                    Ok(action) => action is Render && exists|at: int|
                        #![trigger old(self).list().remove(at)]
                        shown_at(old(self).list(), old(self).shown(), index as nat, at)
                            && final(self).edited(old(self), old(self).list().remove(at)),
                    Err(reason) => reason == UpdateError::Intent(
                        LocalError::Invalid(InvalidChangeRequest::OutOfBounds),
                    ) <==> {
                        ||| index >= filtered(old(self).list(), old(self).shown()).len()
                        ||| exists|at: int|
                            shown_at(old(self).list(), old(self).shown(), index as nat, at) && at
                                > capacity()
                    },
                },
                Msg::Toggle { index } => (out is Ok <==> index < old(self).list().len() && index
                    <= capacity() && old(self).carries(
                    None,
                    toggle_plan(old(self).list(), index as int),
                )) && match out {
                    Ok(action) => {
                        &&& action is Render
                        &&& index < old(self).list().len()
                        &&& final(self).edited(old(self), toggled(old(self).list(), index as int))
                    },
                    Err(reason) => reason == UpdateError::Intent(
                        LocalError::Invalid(InvalidChangeRequest::OutOfBounds),
                    ) <==> index >= old(self).list().len() || index > capacity(),
                },
                Msg::Filter { filter } => {
                    &&& out matches Ok(UpdateAction::Render)
                    &&& final(self).shown() == filter
                    &&& final(self).list() == old(self).list()
                    &&& final(self).history() == old(self).history()
                    &&& final(self).saved() == old(self).saved()
                    &&& final(self).peers() == old(self).peers()
                },
                Msg::ToggleAll => if any_left(old(self).list(), old(self).shown()) {
                    (out is Ok <==> old(self).list().len() <= capacity() && old(self).carries(
                        None,
                        toggle_all_plan(old(self).list(), old(self).shown()),
                    )) && match out {
                        Ok(action) => action is Render && final(self).edited(
                            old(self),
                            all_marked(old(self).list(), old(self).shown()),
                        ),
                        Err(reason) => reason == UpdateError::Intent(
                            LocalError::Invalid(InvalidChangeRequest::OutOfBounds),
                        ) <==> old(self).list().len() > capacity(),
                    }
                } else {
                    out matches Ok(UpdateAction::Nothing) && final(self).same_as(old(self))
                },
                Msg::ClearCompleted => (out is Ok <==> old(self).list().len() <= capacity() && old(
                    self,
                ).carries(None, clear_plan(old(self).list()))) && match out {
                    Ok(action) => action is Render && final(self).edited(
                        old(self),
                        cleared(old(self).list()),
                    ),
                    Err(reason) => reason == UpdateError::Intent(
                        LocalError::Invalid(InvalidChangeRequest::OutOfBounds),
                    ) <==> old(self).list().len() > capacity(),
                },
                Msg::Exit => out matches Ok(UpdateAction::Quit) && final(self).same_as(old(self)),
                Msg::MenuAbout => out matches Ok(UpdateAction::About) && final(self).same_as(
                    old(self),
                ),
                Msg::AddRemote { url } => {
                    &&& out matches Ok(UpdateAction::Render)
                    &&& final(self).peers() == if url@.len() > 0 {
                        old(self).peers().push(url@)
                    } else {
                        old(self).peers()
                    }
                    &&& final(self).list() == old(self).list()
                    &&& final(self).history() == old(self).history()
                    &&& final(self).shown() == old(self).shown()
                    &&& final(self).saved() == old(self).saved()
                },
                Msg::PullFromRemote { remote_index } => {
                    &&& final(self).same_as(old(self))
                    &&& match out {
                        Ok(action) => {
                            &&& remote_index < old(self).peers().len()
                            &&& action matches UpdateAction::Pull { url }
                            &&& url@ == old(self).peers()[remote_index as int]
                        },
                        Err(reason) => remote_index >= old(self).peers().len() && reason
                            == UpdateError::NoSuchRemote,
                    }
                },
                Msg::PushToRemote { remote_index } => {
                    &&& final(self).same_as(old(self))
                    &&& match out {
                        Ok(action) => {
                            &&& remote_index < old(self).peers().len()
                            &&& action matches UpdateAction::Push { url, body }
                            &&& url@ == old(self).peers()[remote_index as int]
                            &&& body@ == old(self).encoding()
                            &&& crate::backend::written(body@)
                            &&& loaded(body@) matches Some(theirs) ==> theirs == old(
                                self,
                            ).history()
                        },
                        Err(reason) => remote_index >= old(self).peers().len() && reason
                            == UpdateError::NoSuchRemote,
                    }
                },
                Msg::PullComplete => out matches Ok(UpdateAction::Render) && final(self).same_as(
                    old(self),
                ),
            },
    {
        match msg {
            Msg::NoOp => Ok(UpdateAction::Nothing),
            Msg::Add { item } => {
                let new_item = Item::new(item.as_str());
                let out = self.add(&new_item);
                proof {
                    assert(new_item@ == fresh_item(item@, new_item@.id));
                }
                out
            },
            Msg::Remove { index } => {
                let ops = remove_ops(self.store.items_ref(), self.filter, index);
                let ghost list = old(self).list();
                let ghost shown = old(self).shown();
                let ghost mut at: int = 0;
                proof {
                    if ops is Ok {
                        at = choose|at: int|
                            {
                                &&& shown_at(list, shown, index as nat, at)
                                &&& at <= capacity()
                                &&& op_views(ops->Ok_0@) == remove_plan(at)
                                &&& #[trigger] crate::ops::apply_ops(
                                    list,
                                    crate::ops::op_views(ops->Ok_0@),
                                ) == Ok::<Seq<ItemView>, InvalidChangeRequest>(list.remove(at))
                            };
                        crate::intents::lemma_shown_at(list, shown, index as nat, at);
                        assert forall|other: int|
                            shown_at(list, shown, index as nat, other) implies other == at by {
                            crate::intents::lemma_shown_once(list, shown, index as nat, at, other);
                        }
                    } else {
                        assert forall|other: int|
                            shown_at(list, shown, index as nat, other) implies other
                            > capacity() by {
                            crate::intents::lemma_shown_at(list, shown, index as nat, other);
                            let far = choose|far: int|
                                shown_at(list, shown, index as nat, far) && far > capacity();
                            crate::intents::lemma_shown_once(list, shown, index as nat, far, other);
                        }
                    }
                }
                self.carry_out(None, ops, Ghost(list.remove(at)))
            },
            Msg::Toggle { index } => {
                let ops = toggle_ops(self.store.items_ref(), index);
                self.carry_out(None, ops, Ghost(toggled(old(self).list(), index as int)))
            },
            Msg::Filter { filter } => {
                self.filter = filter;
                Ok(UpdateAction::Render)
            },
            Msg::ToggleAll => {
                let ops = toggle_all_ops(self.store.items_ref(), self.filter);
                match &ops {
                    Ok(staged) => if staged.len() == 0 {
                        return Ok(UpdateAction::Nothing);
                    },
                    Err(_) => {},
                }
                self.carry_out(
                    None,
                    ops,
                    Ghost(all_marked(old(self).list(), old(self).shown())),
                )
            },
            Msg::ClearCompleted => {
                let ops = clear_completed_ops(self.store.items_ref());
                self.carry_out(None, ops, Ghost(cleared(old(self).list())))
            },
            Msg::Exit => Ok(UpdateAction::Quit),
            Msg::MenuAbout => Ok(UpdateAction::About),
            Msg::AddRemote { url } => {
                if !url.as_str().is_empty() {
                    self.remotes.push(Remote::new(url));
                    assert(self.peers() =~= old(self).peers().push(url@));
                }
                Ok(UpdateAction::Render)
            },
            Msg::PullFromRemote { remote_index } => {
                if remote_index >= self.remotes.len() {
                    return Err(UpdateError::NoSuchRemote);
                }
                Ok(UpdateAction::Pull { url: self.remotes[remote_index].url().clone() })
            },
            Msg::PushToRemote { remote_index } => {
                if remote_index >= self.remotes.len() {
                    return Err(UpdateError::NoSuchRemote);
                }
                let body = self.store.serialize();
                Ok(UpdateAction::Push { url: self.remotes[remote_index].url().clone(), body })
            },
            Msg::PullComplete => Ok(UpdateAction::Render),
        }
    }

    /// Pull, once the bytes are here: takes a peer's history in. On any
    /// error the model is as it was. The bytes have to be readable: the
    /// store does not return on a forged history, so a caller that cannot
    /// vouch for a peer has to be ready for the call not to return.
    pub fn receive(&mut self, bytes: &Vec<u8>) -> (out: Result<(), SyncError>)
        requires
            old(self).wf(),
            crate::backend::readable(bytes@),
        ensures
            final(self).wf(),
            final(self).shown() == old(self).shown(),
            final(self).saved() == old(self).saved(),
            final(self).peers() == old(self).peers(),
            out is Ok <==> old(self).welcomes(bytes@),
            out matches Err(SyncError::Decode(_)) <==> !crate::log::decodes(bytes@),
            match out {
                Ok(()) => loaded(bytes@) matches Some(theirs) && final(self).history() == merged(
                    old(self).history(),
                    theirs,
                ),
                Err(_) => final(self).same_as(old(self)),
            },
    {
        self.store.receive(bytes)
    }

    /// Takes in the history of another model of this process: what that
    /// model would push is received, exactly where this model welcomes it.
    /// On any error the model is as it was.
    pub fn pull_from(&mut self, from: &Model) -> (out: Result<(), SyncError>)
        requires
            old(self).wf(),
        ensures
            final(self).wf(),
            out is Ok <==> old(self).welcomes(from.encoding()),
            out matches Err(SyncError::Decode(_)) <==> !crate::log::decodes(from.encoding()),
            final(self).shown() == old(self).shown(),
            final(self).saved() == old(self).saved(),
            final(self).peers() == old(self).peers(),
            match out {
                Ok(()) => final(self).history() == merged(old(self).history(), from.history()),
                Err(_) => final(self).same_as(old(self)),
            },
    {
        self.store.pull_from(&from.store)
    }
}

} // verus!
