//! Players, the handles by which their records are shared, and the registry
//! that owns the records.

use crate::error::{same_outcome, ErrorView, ServiceError, ServiceResult};
use crate::text::{decimal, numbered};
use vstd::prelude::*;

verus! {

/// A player: an identifier, which never changes, and two names, which may.
#[derive(Debug)]
pub struct Player {
    pub id: u32,
    pub name: String,
    pub last_name: String,
}

/// A [`Player`] with its names as sequences of characters.
pub struct PlayerView {
    pub id: u32,
    pub name: Seq<char>,
    pub last_name: Seq<char>,
}

impl View for Player {
    type V = PlayerView;

    open spec fn view(&self) -> PlayerView {
        PlayerView { id: self.id, name: self.name@, last_name: self.last_name@ }
    }
}

impl Clone for Player {
    fn clone(&self) -> (p: Self)
        ensures
            p == *self,
    {
        Player { id: self.id, name: self.name.clone(), last_name: self.last_name.clone() }
    }
}

impl Player {
    /// A player with these fields.
    pub fn new(id: u32, name: String, last_name: String) -> (p: Self)
        ensures
            p == (Player { id, name, last_name }),
    {
        Self { id, name, last_name }
    }

    /// Takes over the names of `other`. The identifier stays.
    pub fn update_from(&mut self, other: &Player)
        ensures
            *final(self) == (Player {
                id: old(self).id,
                name: other.name,
                last_name: other.last_name,
            }),
    {
        self.name = other.name.clone();
        self.last_name = other.last_name.clone();
    }
}

/// A shared reference to a player record: the slot of the record in the
/// registry that issued it, and the identifier of the player, which is fixed
/// for the life of the record.
///
/// A handle is a plain value. Copies of it reach the same record, and what the
/// registry writes to the record is read through each of them.
#[derive(Clone, Copy, Debug, PartialEq, Eq, Structural)]
pub struct PlayerRef {
    /// Where the record lies in the registry.
    pub slot: usize,
    /// The identifier of the player.
    pub id: u32,
}

/// The error of creating a player whose identifier is taken.
pub open spec fn player_exists(id: u32) -> ErrorView {
    ErrorView::AlreadyExists("Player with id "@ + decimal(id as nat) + " already exists"@)
}

/// The error of asking for a player that the registry does not have.
pub open spec fn player_not_found(id: u32) -> ErrorView {
    ErrorView::NotFound("Player with id "@ + decimal(id as nat) + " not found"@)
}

fn player_exists_error(id: u32) -> (e: ServiceError)
    ensures
        e@ == player_exists(id),
{
    ServiceError::AlreadyExists(numbered("Player with id ", id, " already exists"))
}

fn player_not_found_error(id: u32) -> (e: ServiceError)
    ensures
        e@ == player_not_found(id),
{
    ServiceError::NotFound(numbered("Player with id ", id, " not found"))
}

/// The state of a player registry.
#[verifier::ext_equal]
pub struct PlayerRegistryView {
    /// Every record that was ever created, by slot. A record stays where it
    /// is, and stays readable, after its player has been deleted.
    pub records: Seq<PlayerView>,
    /// The handles of the players that can be found, oldest first.
    pub index: Seq<PlayerRef>,
}

impl PlayerRegistryView {
    /// The registry without records.
    pub open spec fn empty() -> Self {
        PlayerRegistryView { records: Seq::empty(), index: Seq::empty() }
    }

    /// `r` reaches a record of this registry: its slot is in use, and the
    /// record there carries its identifier.
    pub open spec fn holds(self, r: PlayerRef) -> bool {
        r.slot < self.records.len() && self.records[r.slot as int].id == r.id
    }

    /// The record that `r` reaches.
    pub open spec fn record(self, r: PlayerRef) -> PlayerView
        recommends
            self.holds(r),
    {
        self.records[r.slot as int]
    }

    /// A player with this identifier can be found.
    pub open spec fn contains(self, id: u32) -> bool {
        exists|i: int| 0 <= i < self.index.len() && (#[trigger] self.index[i]).id == id
    }

    /// Where in the index the player with this identifier stands.
    pub open spec fn position(self, id: u32) -> int
        recommends
            self.contains(id),
    {
        choose|i: int| 0 <= i < self.index.len() && (#[trigger] self.index[i]).id == id
    }

    /// The handle under which the player with this identifier is found.
    pub open spec fn handle(self, id: u32) -> PlayerRef
        recommends
            self.contains(id),
    {
        self.index[self.position(id)]
    }

    /// The handle that the next record will get.
    pub open spec fn next_handle(self, id: u32) -> PlayerRef {
        PlayerRef { slot: self.records.len() as usize, id }
    }

    /// What holds of a registry at all times: its slots can be counted in a
    /// `usize`, every handle in the index reaches a record, and no two of them
    /// carry the same identifier.
    pub open spec fn wf(self) -> bool {
        &&& self.records.len() <= usize::MAX
        &&& forall|i: int| 0 <= i < self.index.len() ==> self.holds(#[trigger] self.index[i])
        &&& forall|i: int, j: int|
            0 <= i < j < self.index.len() ==> (#[trigger] self.index[i]).id != (
            #[trigger] self.index[j]).id
    }

    /// What creating `player` returns.
    pub open spec fn create(self, player: PlayerView) -> Result<PlayerRef, ErrorView> {
        if self.contains(player.id) {
            Err(player_exists(player.id))
        } else {
            Ok(self.next_handle(player.id))
        }
    }

    /// The registry after creating `player`.
    pub open spec fn after_create(self, player: PlayerView) -> Self {
        if self.contains(player.id) {
            self
        } else {
            PlayerRegistryView {
                records: self.records.push(player),
                index: self.index.push(self.next_handle(player.id)),
            }
        }
    }

    /// What asking for the player with this identifier returns.
    pub open spec fn get(self, id: u32) -> Result<PlayerRef, ErrorView> {
        if self.contains(id) {
            Ok(self.handle(id))
        } else {
            Err(player_not_found(id))
        }
    }

    /// What updating a player to `player` returns.
    pub open spec fn update(self, player: PlayerView) -> Result<PlayerRef, ErrorView> {
        self.get(player.id)
    }

    /// The registry after updating a player to `player`: the record of that
    /// player has the new names, in the slot where it always was.
    pub open spec fn after_update(self, player: PlayerView) -> Self {
        if self.contains(player.id) {
            PlayerRegistryView {
                records: self.records.update(self.handle(player.id).slot as int, player),
                ..self
            }
        } else {
            self
        }
    }

    /// What deleting the player with this identifier returns.
    pub open spec fn delete(self, id: u32) -> Result<(), ErrorView> {
        if self.contains(id) {
            Ok(())
        } else {
            Err(player_not_found(id))
        }
    }

    /// The registry after deleting the player with this identifier: its handle
    /// has left the index, and every record is where it was.
    pub open spec fn after_delete(self, id: u32) -> Self {
        if self.contains(id) {
            PlayerRegistryView { index: self.index.remove(self.position(id)), ..self }
        } else {
            self
        }
    }
}

/// A registry of players: create, find, update, delete, count, and read
/// through a handle. What each operation does is stated over the registry's
/// state, so that one implementation can stand in for another.
///
/// A registry is changed through `&mut self` alone, so a reader never sees a
/// record half-written. It is `Send` and `Sync`: a caller that has several
/// threads shares it behind a lock of its own.
pub trait PlayerService: Send + Sync {
    /// The state of the registry.
    spec fn view(&self) -> PlayerRegistryView;

    /// Stores `player` and returns the handle of its record, unless a player
    /// with its identifier can be found already.
    fn create_player(&mut self, player: Player) -> (res: ServiceResult<PlayerRef>)
        ensures
            old(self)@.wf(),
            final(self)@.wf(),
            final(self)@ == old(self)@.after_create(player@),
            same_outcome(res, old(self)@.create(player@)),
    ;

    /// The handle of the player with this identifier.
    fn get_player(&self, id: u32) -> (res: ServiceResult<PlayerRef>)
        ensures
            self@.wf(),
            same_outcome(res, self@.get(id)),
    ;

    /// Gives the stored player with the identifier of `player` the names of
    /// `player`, in the record that all its handles reach.
    fn update_player(&mut self, player: Player) -> (res: ServiceResult<PlayerRef>)
        ensures
            old(self)@.wf(),
            final(self)@.wf(),
            final(self)@ == old(self)@.after_update(player@),
            same_outcome(res, old(self)@.update(player@)),
    ;

    /// Takes the player with this identifier out of the index. Its record
    /// stays readable through the handles that were handed out.
    fn delete_player(&mut self, id: u32) -> (res: ServiceResult<()>)
        ensures
            old(self)@.wf(),
            final(self)@.wf(),
            final(self)@ == old(self)@.after_delete(id),
            same_outcome(res, old(self)@.delete(id)),
    ;

    /// The number of players that can be found.
    fn count(&self) -> (n: usize)
        ensures
            self@.wf(),
            n == self@.index.len(),
    ;

    /// The record that `r` reaches, if `r` reaches one here.
    fn resolve(&self, r: PlayerRef) -> (res: Option<&Player>)
        ensures
            self@.wf(),
            match res {
                Some(player) => self@.holds(r) && player@ == self@.record(r),
                None => !self@.holds(r),
            },
    ;
}

/// The registry of players: an arena of records and an index of the handles
/// that can be found.
///
/// The two vectors are bound by an invariant that is checked whenever one of
/// them is assigned. An operation that changes them takes them out first,
/// leaving empty ones, and puts them back when it is done.
pub struct PlayerServiceImpl {
    records: Vec<Player>,
    index: Vec<PlayerRef>,
}

impl PlayerServiceImpl {
    #[verifier::type_invariant]
    spec fn valid(self) -> bool {
        self@.wf()
    }

    /// A registry without players.
    pub fn new() -> (s: Self)
        ensures
            s@ == PlayerRegistryView::empty(),
    {
        let s = Self { records: Vec::new(), index: Vec::new() };
        s
    }

    /// Scans the index for the player with this identifier, and returns its
    /// position there with its handle.
    pub fn find_player_by_id(&self, id: u32) -> (found: Option<(usize, PlayerRef)>)
        ensures
            self@.wf(),
            match found {
                Some((i, r)) => self@.contains(id) && i == self@.position(id) && r
                    == self@.handle(id),
                None => !self@.contains(id),
            },
    {
        proof {
            use_type_invariant(self);
        }
        let mut i: usize = 0;
        while i < self.index.len()
            invariant
                self@.wf(),
                i <= self.index@.len(),
                forall|k: int| 0 <= k < i ==> self.index@[k].id != id,
            decreases self.index@.len() - i,
        {
            if self.index[i].id == id {
                return Some((i, self.index[i]));
            }
            i += 1;
        }
        None
    }
}

impl PlayerService for PlayerServiceImpl {
    closed spec fn view(&self) -> PlayerRegistryView {
        PlayerRegistryView {
            records: self.records@.map_values(|p: Player| p@),
            index: self.index@,
        }
    }

    fn create_player(&mut self, player: Player) -> (res: ServiceResult<PlayerRef>) {
        if let Some(_) = self.find_player_by_id(player.id) {
            return Err(player_exists_error(player.id));
        }
        let mut index: Vec<PlayerRef> = Vec::new();
        std::mem::swap(&mut index, &mut self.index);
        let mut records: Vec<Player> = Vec::new();
        std::mem::swap(&mut records, &mut self.records);
        let player_ref = PlayerRef { slot: records.len(), id: player.id };
        records.push(player);
        index.push(player_ref);
        proof {
            assert(records@.len() == records.len());
            assert(records@.map_values(|p: Player| p@) =~= old(self)@.after_create(
                player@,
            ).records);
        }
        self.records = records;
        self.index = index;
        Ok(player_ref)
    }

    fn get_player(&self, id: u32) -> (res: ServiceResult<PlayerRef>) {
        match self.find_player_by_id(id) {
            Some((_, player)) => Ok(player),
            None => Err(player_not_found_error(id)),
        }
    }

    fn update_player(&mut self, player: Player) -> (res: ServiceResult<PlayerRef>) {
        let player_ref = match self.find_player_by_id(player.id) {
            Some((_, player_ref)) => player_ref,
            None => {
                return Err(player_not_found_error(player.id));
            },
        };
        let mut index: Vec<PlayerRef> = Vec::new();
        std::mem::swap(&mut index, &mut self.index);
        let mut records: Vec<Player> = Vec::new();
        std::mem::swap(&mut records, &mut self.records);
        records[player_ref.slot].update_from(&player);
        self.records = records;
        self.index = index;
        Ok(player_ref)
    }

    fn delete_player(&mut self, id: u32) -> (res: ServiceResult<()>) {
        let position = match self.find_player_by_id(id) {
            Some((position, _)) => position,
            None => {
                return Err(player_not_found_error(id));
            },
        };
        let mut index: Vec<PlayerRef> = Vec::new();
        std::mem::swap(&mut index, &mut self.index);
        index.remove(position);
        self.index = index;
        Ok(())
    }

    fn count(&self) -> (n: usize) {
        proof {
            use_type_invariant(self);
        }
        self.index.len()
    }

    fn resolve(&self, r: PlayerRef) -> (res: Option<&Player>) {
        proof {
            use_type_invariant(self);
        }
        if r.slot < self.records.len() && self.records[r.slot].id == r.id {
            Some(&self.records[r.slot])
        } else {
            None
        }
    }
}

impl PlayerRegistryView {
    /// In a well-formed registry a player stands where its identifier is
    /// seen: the index has no other entry with that identifier.
    pub proof fn lemma_position(self, id: u32, i: int)
        requires
            self.wf(),
            0 <= i < self.index.len(),
            self.index[i].id == id,
        ensures
            self.contains(id),
            self.position(id) == i,
            self.handle(id) == self.index[i],
            self.holds(self.handle(id)),
    {
    }

    /// Creating a player keeps the registry well-formed, as long as there is
    /// a slot left for the record.
    pub proof fn lemma_create_preserves_wf(self, player: PlayerView)
        requires
            self.wf(),
            self.records.len() < usize::MAX,
        ensures
            self.after_create(player).wf(),
    {
    }

    /// Updating a player keeps the registry well-formed.
    pub proof fn lemma_update_preserves_wf(self, player: PlayerView)
        requires
            self.wf(),
        ensures
            self.after_update(player).wf(),
    {
    }

    /// Deleting a player keeps the registry well-formed.
    pub proof fn lemma_delete_preserves_wf(self, id: u32)
        requires
            self.wf(),
        ensures
            self.after_delete(id).wf(),
    {
    }
}

/// An operation that fails changes nothing.
pub proof fn lemma_failed_operation_changes_nothing(
    reg: PlayerRegistryView,
    player: PlayerView,
    id: u32,
)
    ensures
        reg.create(player) is Err ==> reg.after_create(player) == reg,
        reg.update(player) is Err ==> reg.after_update(player) == reg,
        reg.delete(id) is Err ==> reg.after_delete(id) == reg,
{
}

/// Identifiers are unique. Once `first` has been created under the handle
/// `r`, creating `second` with the same identifier fails with `AlreadyExists`
/// and leaves the registry as it was: the record behind `r` is still `first`.
pub proof fn lemma_second_create_is_refused(
    reg: PlayerRegistryView,
    first: PlayerView,
    second: PlayerView,
    r: PlayerRef,
)
    requires
        reg.wf(),
        reg.records.len() < usize::MAX,
        reg.create(first) == Ok::<PlayerRef, ErrorView>(r),
        second.id == first.id,
    ensures
        reg.after_create(first).wf(),
        reg.after_create(first).create(second) == Err::<PlayerRef, ErrorView>(
            player_exists(first.id),
        ),
        reg.after_create(first).after_create(second) == reg.after_create(first),
        reg.after_create(first).get(first.id) == Ok::<PlayerRef, ErrorView>(r),
        reg.after_create(first).after_create(second).holds(r),
        reg.after_create(first).after_create(second).record(r) == first,
{
    let once = reg.after_create(first);
    reg.lemma_create_preserves_wf(first);
    once.lemma_position(first.id, reg.index.len() as int);
}

/// An update is seen through every handle of the player. Where `r` is the
/// handle under which the player is found, the update returns `r`, the record
/// behind `r` is then `player`, and the index and every other record are as
/// they were. A handle is a value, so this holds of each copy of `r`, whoever
/// keeps it.
pub proof fn lemma_update_is_seen_through_handle(
    reg: PlayerRegistryView,
    player: PlayerView,
    r: PlayerRef,
)
    requires
        reg.wf(),
        reg.get(player.id) == Ok::<PlayerRef, ErrorView>(r),
    ensures
        reg.update(player) == Ok::<PlayerRef, ErrorView>(r),
        reg.after_update(player).wf(),
        reg.after_update(player).holds(r),
        reg.after_update(player).record(r) == player,
        reg.after_update(player).index == reg.index,
        reg.after_update(player).get(player.id) == Ok::<PlayerRef, ErrorView>(r),
        forall|other: PlayerRef|
            reg.holds(other) && other.slot != r.slot ==> reg.after_update(player).holds(other)
                && #[trigger] reg.after_update(player).record(other) == reg.record(other),
{
    reg.after_update(player).lemma_position(player.id, reg.position(player.id));
}

/// Deleting a player hides it and destroys nothing. Where the player is
/// found, deleting it succeeds, it is then not found, and every record is
/// where it was: a handle `r` that reached a record before, the deleted
/// player's own among them, reaches the same record after.
pub proof fn lemma_delete_keeps_records(reg: PlayerRegistryView, id: u32, r: PlayerRef)
    requires
        reg.wf(),
        reg.contains(id),
    ensures
        reg.delete(id) == Ok::<(), ErrorView>(()),
        reg.after_delete(id).wf(),
        !reg.after_delete(id).contains(id),
        reg.after_delete(id).get(id) == Err::<PlayerRef, ErrorView>(player_not_found(id)),
        reg.after_delete(id).index.len() == reg.index.len() - 1,
        reg.after_delete(id).records == reg.records,
        reg.holds(r) ==> reg.after_delete(id).holds(r) && reg.after_delete(id).record(r)
            == reg.record(r),
{
    reg.lemma_delete_preserves_wf(id);
}

/// A handle stays the handle of its player. What is done to players with
/// other identifiers, and an update of the player itself, leave the handle
/// under which the player `id` is found as it was.
pub proof fn lemma_handle_is_stable(reg: PlayerRegistryView, id: u32, other: PlayerView)
    requires
        reg.wf(),
        reg.contains(id),
    ensures
        reg.after_update(other).get(id) == reg.get(id),
        other.id != id ==> reg.after_create(other).get(id) == reg.get(id),
        other.id != id ==> reg.after_delete(other.id).get(id) == reg.get(id),
{
    let at = reg.position(id);
    reg.lemma_update_preserves_wf(other);
    reg.after_update(other).lemma_position(id, at);
    if other.id != id {
        let created = reg.after_create(other);
        assert(created.index[at] == reg.index[at]);
        if reg.contains(other.id) {
            let gone = reg.position(other.id);
            reg.lemma_delete_preserves_wf(other.id);
            reg.after_delete(other.id).lemma_position(id, if at < gone { at } else { at - 1 });
        }
    }
}

} // verus!
