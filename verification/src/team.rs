//! Teams, and the registry that owns them and assigns players to them.

use crate::error::{same_outcome, same_view_outcome, ErrorView, ServiceError, ServiceResult};
use crate::player::{
    lemma_delete_keeps_records, lemma_update_is_seen_through_handle, player_not_found, PlayerRef,
    PlayerRegistryView, PlayerService, PlayerView,
};
use crate::text::{decimal, numbered, render_decimal};
use vstd::prelude::*;
use vstd::string::StringExecFns;

verus! {

/// A team: an identifier, a name, and the handles of its players in the order
/// in which they joined. No two of them carry the same identifier: that is an
/// invariant of the type, checked whenever the players are assigned, so an
/// operation that changes them takes the vector out first and puts it back
/// when it is done.
#[derive(Debug)]
pub struct Team {
    id: u32,
    name: String,
    players: Vec<PlayerRef>,
}

/// A [`Team`] as a plain value.
#[verifier::ext_equal]
pub struct TeamView {
    pub id: u32,
    pub name: Seq<char>,
    pub players: Seq<PlayerRef>,
}

/// The error of creating a team whose identifier is taken.
pub open spec fn team_exists(id: u32) -> ErrorView {
    ErrorView::AlreadyExists("Team with id "@ + decimal(id as nat) + " already exists"@)
}

/// The error of asking for a team that the registry does not have.
pub open spec fn team_not_found(id: u32) -> ErrorView {
    ErrorView::NotFound("Team with id "@ + decimal(id as nat) + " not found"@)
}

/// The error of assigning a player to a team that it is in.
pub open spec fn already_in_team(player_id: u32, team_id: u32) -> ErrorView {
    ErrorView::AlreadyExists(
        "Player "@ + decimal(player_id as nat) + " is already in team "@ + decimal(team_id as nat),
    )
}

/// The error of removing a player from a team that it is not in.
pub open spec fn not_in_team(player_id: u32, team_id: u32) -> ErrorView {
    ErrorView::NotFound(
        "Player "@ + decimal(player_id as nat) + " not found in team "@ + decimal(team_id as nat),
    )
}

fn team_exists_error(id: u32) -> (e: ServiceError)
    ensures
        e@ == team_exists(id),
{
    ServiceError::AlreadyExists(numbered("Team with id ", id, " already exists"))
}

fn team_not_found_error(id: u32) -> (e: ServiceError)
    ensures
        e@ == team_not_found(id),
{
    ServiceError::NotFound(numbered("Team with id ", id, " not found"))
}

fn already_in_team_error(player_id: u32, team_id: u32) -> (e: ServiceError)
    ensures
        e@ == already_in_team(player_id, team_id),
{
    let mut msg = numbered("Player ", player_id, " is already in team ");
    msg.append(render_decimal(team_id).as_str());
    ServiceError::AlreadyExists(msg)
}

fn not_in_team_error(player_id: u32, team_id: u32) -> (e: ServiceError)
    ensures
        e@ == not_in_team(player_id, team_id),
{
    let mut msg = numbered("Player ", player_id, " not found in team ");
    msg.append(render_decimal(team_id).as_str());
    ServiceError::NotFound(msg)
}

impl TeamView {
    /// The team has a player with this identifier.
    pub open spec fn has_player(self, player_id: u32) -> bool {
        exists|k: int| 0 <= k < self.players.len() && (#[trigger] self.players[k]).id == player_id
    }

    /// Where among the players of the team the one with this identifier
    /// stands.
    pub open spec fn position(self, player_id: u32) -> int
        recommends
            self.has_player(player_id),
    {
        choose|k: int| 0 <= k < self.players.len() && (#[trigger] self.players[k]).id == player_id
    }

    /// What holds of a team at all times: no two of its players carry the
    /// same identifier.
    pub open spec fn wf(self) -> bool {
        forall|i: int, j: int|
            0 <= i < j < self.players.len() ==> (#[trigger] self.players[i]).id != (
            #[trigger] self.players[j]).id
    }

    /// What adding the player behind `r` returns.
    pub open spec fn add_player(self, r: PlayerRef) -> Result<(), ErrorView> {
        if self.has_player(r.id) {
            Err(already_in_team(r.id, self.id))
        } else {
            Ok(())
        }
    }

    /// The team after adding the player behind `r`: the handle stands last.
    pub open spec fn after_add_player(self, r: PlayerRef) -> Self {
        if self.has_player(r.id) {
            self
        } else {
            TeamView { players: self.players.push(r), ..self }
        }
    }

    /// What removing the player with this identifier returns.
    pub open spec fn remove_player(self, player_id: u32) -> Result<(), ErrorView> {
        if self.has_player(player_id) {
            Ok(())
        } else {
            Err(not_in_team(player_id, self.id))
        }
    }

    /// The team after removing the player with this identifier: the others
    /// stand in the order in which they stood.
    pub open spec fn after_remove_player(self, player_id: u32) -> Self {
        if self.has_player(player_id) {
            TeamView { players: self.players.remove(self.position(player_id)), ..self }
        } else {
            self
        }
    }
}

/// The position of the handle in `players` that carries this identifier, the
/// first if there are several.
fn position_of(players: &Vec<PlayerRef>, player_id: u32) -> (found: Option<usize>)
    ensures
        match found {
            Some(k) => k < players@.len() && players@[k as int].id == player_id && forall|j: int|
                0 <= j < k ==> players@[j].id != player_id,
            None => forall|j: int| 0 <= j < players@.len() ==> players@[j].id != player_id,
        },
{
    let mut k: usize = 0;
    while k < players.len()
        invariant
            k <= players@.len(),
            forall|j: int| 0 <= j < k ==> players@[j].id != player_id,
        decreases players@.len() - k,
    {
        if players[k].id == player_id {
            return Some(k);
        }
        k += 1;
    }
    None
}

impl View for Team {
    type V = TeamView;

    closed spec fn view(&self) -> TeamView {
        TeamView { id: self.id, name: self.name@, players: self.players@ }
    }
}

impl Clone for Team {
    fn clone(&self) -> (team: Self)
        ensures
            team@ == self@,
    {
        proof {
            use_type_invariant(self);
        }
        Team { id: self.id, name: self.name.clone(), players: self.players.clone() }
    }
}

impl Team {
    #[verifier::type_invariant]
    spec fn valid(self) -> bool {
        self@.wf()
    }

    /// A team without players.
    pub fn new(id: u32, name: String) -> (team: Self)
        ensures
            team@ == (TeamView { id, name: name@, players: Seq::empty() }),
    {
        Self { id, name, players: Vec::new() }
    }

    /// The identifier of the team.
    pub fn id(&self) -> (id: u32)
        ensures
            id == self@.id,
    {
        self.id
    }

    /// The name of the team.
    pub fn name(&self) -> (name: &String)
        ensures
            name@ == self@.name,
    {
        &self.name
    }

    /// The handles of the players, in the order in which they joined.
    pub fn players(&self) -> (players: &Vec<PlayerRef>)
        ensures
            self@.wf(),
            players@ == self@.players,
    {
        proof {
            use_type_invariant(self);
        }
        &self.players
    }

    /// Adds the player behind `player` as the last of the team, unless the
    /// team has a player with that identifier.
    pub fn add_player(&mut self, player: PlayerRef) -> (res: ServiceResult<()>)
        ensures
            final(self)@.wf(),
            final(self)@ == old(self)@.after_add_player(player),
            same_outcome(res, old(self)@.add_player(player)),
    {
        proof {
            use_type_invariant(&*self);
        }
        let player_id = player.id;
        if position_of(&self.players, player_id).is_some() {
            return Err(already_in_team_error(player_id, self.id));
        }
        let mut players: Vec<PlayerRef> = Vec::new();
        std::mem::swap(&mut players, &mut self.players);
        players.push(player);
        proof {
            old(self)@.lemma_add_player_preserves_wf(player);
        }
        self.players = players;
        Ok(())
    }

    /// The number of players in the team.
    pub fn player_count(&self) -> (n: usize)
        ensures
            n == self@.players.len(),
    {
        self.players.len()
    }
}

/// The state of a team registry: its teams, oldest first.
#[verifier::ext_equal]
pub struct TeamRegistryView {
    pub teams: Seq<TeamView>,
}

impl TeamRegistryView {
    /// The registry without teams.
    pub open spec fn empty() -> Self {
        TeamRegistryView { teams: Seq::empty() }
    }

    /// The registry has a team with this identifier.
    pub open spec fn has_team(self, id: u32) -> bool {
        exists|i: int| 0 <= i < self.teams.len() && (#[trigger] self.teams[i]).id == id
    }

    /// Where in the registry the team with this identifier stands.
    pub open spec fn position(self, id: u32) -> int
        recommends
            self.has_team(id),
    {
        choose|i: int| 0 <= i < self.teams.len() && (#[trigger] self.teams[i]).id == id
    }

    /// The team with this identifier.
    pub open spec fn team(self, id: u32) -> TeamView
        recommends
            self.has_team(id),
    {
        self.teams[self.position(id)]
    }

    /// What holds of a team registry at all times: each team is well-formed,
    /// and no two teams carry the same identifier.
    pub open spec fn wf(self) -> bool {
        &&& forall|i: int| 0 <= i < self.teams.len() ==> (#[trigger] self.teams[i]).wf()
        &&& forall|i: int, j: int|
            0 <= i < j < self.teams.len() ==> (#[trigger] self.teams[i]).id != (
            #[trigger] self.teams[j]).id
    }

    /// What creating `team` returns.
    pub open spec fn create_team(self, team: TeamView) -> Result<TeamView, ErrorView> {
        if self.has_team(team.id) {
            Err(team_exists(team.id))
        } else {
            Ok(team)
        }
    }

    /// The registry after creating `team`: the team stands last.
    pub open spec fn after_create_team(self, team: TeamView) -> Self {
        if self.has_team(team.id) {
            self
        } else {
            TeamRegistryView { teams: self.teams.push(team) }
        }
    }

    /// What asking for the team with this identifier returns.
    pub open spec fn get_team(self, id: u32) -> Result<TeamView, ErrorView> {
        if self.has_team(id) {
            Ok(self.team(id))
        } else {
            Err(team_not_found(id))
        }
    }

    /// What assigning a player to the team `team_id` returns, where
    /// `resolved` is what the player registry answered for the player's
    /// identifier. A player that was not found comes first, then a team that
    /// was not found, then a player that the team has already.
    pub open spec fn insert_player(
        self,
        team_id: u32,
        resolved: Result<PlayerRef, ErrorView>,
    ) -> Result<(), ErrorView> {
        match resolved {
            Err(e) => Err(e),
            Ok(r) => if self.has_team(team_id) {
                self.team(team_id).add_player(r)
            } else {
                Err(team_not_found(team_id))
            },
        }
    }

    /// The registry after assigning a player to the team `team_id`.
    pub open spec fn after_insert_player(
        self,
        team_id: u32,
        resolved: Result<PlayerRef, ErrorView>,
    ) -> Self {
        match resolved {
            Err(_) => self,
            Ok(r) => if self.has_team(team_id) {
                TeamRegistryView {
                    teams: self.teams.update(
                        self.position(team_id),
                        self.team(team_id).after_add_player(r),
                    ),
                }
            } else {
                self
            },
        }
    }

    /// What removing the player `player_id` from the team `team_id` returns.
    pub open spec fn remove_player(self, team_id: u32, player_id: u32) -> Result<(), ErrorView> {
        if self.has_team(team_id) {
            self.team(team_id).remove_player(player_id)
        } else {
            Err(team_not_found(team_id))
        }
    }

    /// The registry after removing the player `player_id` from the team
    /// `team_id`.
    pub open spec fn after_remove_player(self, team_id: u32, player_id: u32) -> Self {
        if self.has_team(team_id) {
            TeamRegistryView {
                teams: self.teams.update(
                    self.position(team_id),
                    self.team(team_id).after_remove_player(player_id),
                ),
            }
        } else {
            self
        }
    }
}

/// A registry of teams that resolves the identifiers of players in a player
/// registry. What each operation does is stated over the states of the two.
/// Like a player registry, it is changed through `&mut self` alone, and is
/// `Send` and `Sync`.
pub trait TeamService: Send + Sync {
    /// The state of the registry.
    spec fn view(&self) -> TeamRegistryView;

    /// The state of the player registry in which the identifiers of players
    /// are resolved.
    spec fn players(&self) -> PlayerRegistryView;

    /// Stores a copy of `team` and returns `team`, unless a team with its
    /// identifier is there already. What is returned does not follow later
    /// changes to the stored team.
    fn create_team(&mut self, team: Team) -> (res: ServiceResult<Team>)
        ensures
            old(self)@.wf(),
            final(self)@.wf(),
            final(self).players() == old(self).players(),
            final(self)@ == old(self)@.after_create_team(team@),
            same_view_outcome(res, old(self)@.create_team(team@)),
    ;

    /// The team with this identifier, as it stands in the registry.
    fn get_team(&self, id: u32) -> (res: ServiceResult<&Team>)
        ensures
            self@.wf(),
            same_view_outcome(res, self@.get_team(id)),
    ;

    /// Resolves `player_id` in the player registry and adds the handle found
    /// as the last of the team `team_id`.
    fn insert_player_to_team(&mut self, team_id: u32, player_id: u32) -> (res: ServiceResult<()>)
        ensures
            old(self)@.wf(),
            old(self).players().wf(),
            final(self)@.wf(),
            final(self).players() == old(self).players(),
            final(self)@ == old(self)@.after_insert_player(
                team_id,
                old(self).players().get(player_id),
            ),
            same_outcome(res, old(self)@.insert_player(team_id, old(self).players().get(player_id))),
    ;

    /// Takes the player `player_id` out of the team `team_id`. The players
    /// that stay keep their order.
    fn remove_player_from_team(&mut self, team_id: u32, player_id: u32) -> (res: ServiceResult<()>)
        ensures
            old(self)@.wf(),
            final(self)@.wf(),
            final(self).players() == old(self).players(),
            final(self)@ == old(self)@.after_remove_player(team_id, player_id),
            same_outcome(res, old(self)@.remove_player(team_id, player_id)),
    ;
}

/// The teams of a registry, oldest first. No two of them carry the same
/// identifier: an invariant of the type, kept as [`Team`] keeps its own.
struct TeamList {
    teams: Vec<Team>,
}

/// The teams of a vector as plain values.
spec fn views(teams: Seq<Team>) -> Seq<TeamView> {
    teams.map_values(|team: Team| team@)
}

impl View for TeamList {
    type V = TeamRegistryView;

    closed spec fn view(&self) -> TeamRegistryView {
        TeamRegistryView { teams: views(self.teams@) }
    }
}

impl TeamList {
    #[verifier::type_invariant]
    spec fn valid(self) -> bool {
        self@.wf()
    }
}

/// The registry of teams. It owns the player registry in which it resolves
/// the identifiers of players; callers reach that registry through
/// [`TeamServiceImpl::player_service`] and
/// [`TeamServiceImpl::player_service_mut`].
pub struct TeamServiceImpl<P: PlayerService> {
    list: TeamList,
    player_service: P,
}

impl<P: PlayerService> TeamServiceImpl<P> {
    /// A registry without teams, over the given player registry.
    pub fn new(player_service: P) -> (s: Self)
        ensures
            s@ == TeamRegistryView::empty(),
            s.players() == player_service@,
    {
        let s = Self { list: TeamList { teams: Vec::new() }, player_service };
        s
    }

    /// The player registry, to read.
    pub fn player_service(&self) -> (player_service: &P)
        ensures
            player_service@ == self.players(),
    {
        &self.player_service
    }

    /// The player registry, to change. The teams stay as they are, whatever
    /// is done to the players.
    pub fn player_service_mut(&mut self) -> (player_service: &mut P)
        ensures
            player_service@ == old(self).players(),
            final(self).players() == final(player_service)@,
            final(self)@ == old(self)@,
    {
        &mut self.player_service
    }

    /// Scans the registry for the team with this identifier, and returns its
    /// position with the team.
    pub fn find_team_by_id(&self, id: u32) -> (found: Option<(usize, &Team)>)
        ensures
            self@.wf(),
            match found {
                Some((i, team)) => self@.has_team(id) && i == self@.position(id) && team@
                    == self@.team(id),
                None => !self@.has_team(id),
            },
    {
        proof {
            use_type_invariant(&self.list);
        }
        let mut i: usize = 0;
        while i < self.list.teams.len()
            invariant
                self@.wf(),
                i <= self.list.teams@.len(),
                forall|k: int| 0 <= k < i ==> self@.teams[k].id != id,
            decreases self.list.teams@.len() - i,
        {
            if self.list.teams[i].id == id {
                assert(self@.teams[i as int].id == id);
                return Some((i, &self.list.teams[i]));
            }
            i += 1;
        }
        None
    }

    /// Scans `teams` for the team with this identifier, and returns it to be
    /// changed in place.
    fn find_team_by_id_mut(teams: &mut Vec<Team>, id: u32) -> (found: Option<&mut Team>)
        requires
            (TeamRegistryView { teams: views(old(teams)@) }).wf(),
        ensures
            ({
                let before = TeamRegistryView { teams: views(old(teams)@) };
                match found {
                    Some(team) => before.has_team(id) && *team == old(teams)@[before.position(id)]
                        && final(teams)@ == old(teams)@.update(before.position(id), *final(team)),
                    None => !before.has_team(id) && final(teams)@ == old(teams)@,
                }
            }),
    {
        let ghost before = TeamRegistryView { teams: views(teams@) };
        let mut i: usize = 0;
        while i < teams.len()
            invariant
                *teams == *old(teams),
                before == (TeamRegistryView { teams: views(teams@) }),
                before.wf(),
                i <= teams@.len(),
                forall|k: int| 0 <= k < i ==> before.teams[k].id != id,
            decreases teams@.len() - i,
        {
            if teams[i].id == id {
                assert(before.teams[i as int].id == id);
                return Some(&mut teams[i]);
            }
            i += 1;
        }
        None
    }
}

impl<P: PlayerService> TeamService for TeamServiceImpl<P> {
    closed spec fn view(&self) -> TeamRegistryView {
        self.list@
    }

    closed spec fn players(&self) -> PlayerRegistryView {
        self.player_service@
    }

    fn create_team(&mut self, team: Team) -> (res: ServiceResult<Team>) {
        if let Some(_) = self.find_team_by_id(team.id) {
            return Err(team_exists_error(team.id));
        }
        let mut teams: Vec<Team> = Vec::new();
        std::mem::swap(&mut teams, &mut self.list.teams);
        teams.push(team.clone());
        proof {
            use_type_invariant(&team);
            assert(views(teams@) =~= old(self)@.after_create_team(team@).teams);
        }
        self.list.teams = teams;
        Ok(team)
    }

    fn get_team(&self, id: u32) -> (res: ServiceResult<&Team>) {
        match self.find_team_by_id(id) {
            Some((_, team)) => Ok(team),
            None => Err(team_not_found_error(id)),
        }
    }

    fn insert_player_to_team(&mut self, team_id: u32, player_id: u32) -> (res: ServiceResult<()>) {
        proof {
            use_type_invariant(&self.list);
        }
        let player = self.player_service.get_player(player_id)?;
        let mut teams: Vec<Team> = Vec::new();
        std::mem::swap(&mut teams, &mut self.list.teams);
        let res = match Self::find_team_by_id_mut(&mut teams, team_id) {
            Some(team) => team.add_player(player),
            None => Err(team_not_found_error(team_id)),
        };
        proof {
            assert(views(teams@) =~= old(self)@.after_insert_player(
                team_id,
                old(self).players().get(player_id),
            ).teams);
        }
        self.list.teams = teams;
        res
    }

    fn remove_player_from_team(&mut self, team_id: u32, player_id: u32) -> (res: ServiceResult<()>) {
        proof {
            use_type_invariant(&self.list);
        }
        let mut teams: Vec<Team> = Vec::new();
        std::mem::swap(&mut teams, &mut self.list.teams);
        let res = match Self::find_team_by_id_mut(&mut teams, team_id) {
            Some(team) => {
                match position_of(&team.players, player_id) {
                    Some(pos) => {
                        let mut players: Vec<PlayerRef> = Vec::new();
                        std::mem::swap(&mut players, &mut team.players);
                        players.remove(pos);
                        team.players = players;
                        Ok(())
                    },
                    None => Err(not_in_team_error(player_id, team_id)),
                }
            },
            None => Err(team_not_found_error(team_id)),
        };
        proof {
            assert(views(teams@) =~= old(self)@.after_remove_player(team_id, player_id).teams);
        }
        self.list.teams = teams;
        res
    }
}

impl TeamView {
    /// In a well-formed team a player stands where its identifier is seen.
    pub proof fn lemma_position(self, player_id: u32, k: int)
        requires
            self.wf(),
            0 <= k < self.players.len(),
            self.players[k].id == player_id,
        ensures
            self.has_player(player_id),
            self.position(player_id) == k,
    {
    }

    /// Adding a player keeps the team well-formed.
    pub proof fn lemma_add_player_preserves_wf(self, r: PlayerRef)
        requires
            self.wf(),
        ensures
            self.after_add_player(r).wf(),
    {
    }

    /// Removing a player keeps the team well-formed, and the team then has no
    /// player with that identifier.
    pub proof fn lemma_remove_player_preserves_wf(self, player_id: u32)
        requires
            self.wf(),
        ensures
            self.after_remove_player(player_id).wf(),
            !self.after_remove_player(player_id).has_player(player_id),
    {
    }
}

impl TeamRegistryView {
    /// In a well-formed registry a team stands where its identifier is seen.
    pub proof fn lemma_position(self, id: u32, i: int)
        requires
            self.wf(),
            0 <= i < self.teams.len(),
            self.teams[i].id == id,
        ensures
            self.has_team(id),
            self.position(id) == i,
            self.team(id) == self.teams[i],
    {
    }

    /// Creating a well-formed team keeps the registry well-formed.
    pub proof fn lemma_create_team_preserves_wf(self, team: TeamView)
        requires
            self.wf(),
            team.wf(),
        ensures
            self.after_create_team(team).wf(),
    {
    }

    /// Replacing a team by one with the same identifier keeps every team
    /// where it stood.
    proof fn lemma_replace(self, id: u32, team: TeamView)
        requires
            self.wf(),
            self.has_team(id),
            team.wf(),
            team.id == id,
        ensures
            (TeamRegistryView { teams: self.teams.update(self.position(id), team) }).wf(),
            (TeamRegistryView { teams: self.teams.update(self.position(id), team) }).has_team(id),
            (TeamRegistryView { teams: self.teams.update(self.position(id), team) }).position(id)
                == self.position(id),
            (TeamRegistryView { teams: self.teams.update(self.position(id), team) }).team(id)
                == team,
    {
        let at = self.position(id);
        (TeamRegistryView { teams: self.teams.update(at, team) }).lemma_position(id, at);
    }

    /// Assigning a player keeps the registry well-formed.
    pub proof fn lemma_insert_player_preserves_wf(
        self,
        team_id: u32,
        resolved: Result<PlayerRef, ErrorView>,
    )
        requires
            self.wf(),
        ensures
            self.after_insert_player(team_id, resolved).wf(),
    {
        if let Ok(r) = resolved {
            if self.has_team(team_id) {
                let team = self.team(team_id);
                team.lemma_add_player_preserves_wf(r);
                self.lemma_replace(team_id, team.after_add_player(r));
            }
        }
    }

    /// Removing a player keeps the registry well-formed.
    pub proof fn lemma_remove_player_preserves_wf(self, team_id: u32, player_id: u32)
        requires
            self.wf(),
        ensures
            self.after_remove_player(team_id, player_id).wf(),
    {
        if self.has_team(team_id) {
            let team = self.team(team_id);
            team.lemma_remove_player_preserves_wf(player_id);
            self.lemma_replace(team_id, team.after_remove_player(player_id));
        }
    }
}

/// An operation on the teams that fails changes nothing.
pub proof fn lemma_failed_team_operation_changes_nothing(
    teams: TeamRegistryView,
    team: TeamView,
    team_id: u32,
    player_id: u32,
    resolved: Result<PlayerRef, ErrorView>,
)
    ensures
        teams.create_team(team) is Err ==> teams.after_create_team(team) == teams,
        teams.insert_player(team_id, resolved) is Err ==> teams.after_insert_player(
            team_id,
            resolved,
        ) == teams,
        teams.remove_player(team_id, player_id) is Err ==> teams.after_remove_player(
            team_id,
            player_id,
        ) == teams,
{
}

/// No player is in a team twice. Where the player is found in `players`, and
/// the team is there and does not have the player, assigning the player
/// succeeds and puts its handle, which reaches a record of `players`, last;
/// assigning it again at once fails with `AlreadyExists` and changes nothing;
/// and the team has one entry with the player's identifier, no more.
pub proof fn lemma_assign_twice(
    teams: TeamRegistryView,
    players: PlayerRegistryView,
    team_id: u32,
    player_id: u32,
)
    requires
        teams.wf(),
        players.wf(),
        players.contains(player_id),
        teams.has_team(team_id),
        !teams.team(team_id).has_player(player_id),
    ensures
        ({
            let resolved = players.get(player_id);
            let once = teams.after_insert_player(team_id, resolved);
            let members = once.team(team_id).players;
            &&& teams.insert_player(team_id, resolved) == Ok::<(), ErrorView>(())
            &&& once.wf()
            &&& once.has_team(team_id)
            &&& members == teams.team(team_id).players.push(players.handle(player_id))
            &&& players.holds(players.handle(player_id))
            &&& once.insert_player(team_id, resolved) == Err::<(), ErrorView>(
                already_in_team(player_id, team_id),
            )
            &&& once.after_insert_player(team_id, resolved) == once
            &&& forall|k: int|
                0 <= k < members.len() ==> ((#[trigger] members[k]).id == player_id <==> k
                    == members.len() - 1)
        }),
{
    let r = players.handle(player_id);
    let team = teams.team(team_id);
    team.lemma_add_player_preserves_wf(r);
    teams.lemma_replace(team_id, team.after_add_player(r));
    let members = team.after_add_player(r).players;
    assert(members[members.len() - 1].id == player_id);
}

/// A player is removed once. Where the team is there and has the player,
/// removing the player succeeds; removing it again at once fails with
/// `NotFound` and changes nothing.
pub proof fn lemma_remove_twice(teams: TeamRegistryView, team_id: u32, player_id: u32)
    requires
        teams.wf(),
        teams.has_team(team_id),
        teams.team(team_id).has_player(player_id),
    ensures
        ({
            let once = teams.after_remove_player(team_id, player_id);
            &&& teams.remove_player(team_id, player_id) == Ok::<(), ErrorView>(())
            &&& once.wf()
            &&& once.has_team(team_id)
            &&& once.team(team_id).players == teams.team(team_id).players.remove(
                teams.team(team_id).position(player_id),
            )
            &&& once.remove_player(team_id, player_id) == Err::<(), ErrorView>(
                not_in_team(player_id, team_id),
            )
            &&& once.after_remove_player(team_id, player_id) == once
        }),
{
    let team = teams.team(team_id);
    team.lemma_remove_player_preserves_wf(player_id);
    teams.lemma_replace(team_id, team.after_remove_player(player_id));
}

/// Removing undoes assigning. Where assigning the player succeeds, removing
/// the player at once succeeds too, and the teams are then as they were.
pub proof fn lemma_remove_undoes_assign(
    teams: TeamRegistryView,
    players: PlayerRegistryView,
    team_id: u32,
    player_id: u32,
)
    requires
        teams.wf(),
        players.wf(),
        teams.insert_player(team_id, players.get(player_id)) is Ok,
    ensures
        ({
            let once = teams.after_insert_player(team_id, players.get(player_id));
            &&& once.remove_player(team_id, player_id) == Ok::<(), ErrorView>(())
            &&& once.after_remove_player(team_id, player_id) == teams
        }),
{
    lemma_assign_twice(teams, players, team_id, player_id);
    let team = teams.team(team_id);
    let once = teams.after_insert_player(team_id, players.get(player_id));
    let grown = once.team(team_id);
    grown.lemma_position(player_id, grown.players.len() - 1);
    assert(grown.after_remove_player(player_id) =~= team);
}

/// An update of a player is seen in every team that has the player. Where
/// the member `k` of the team `t` is the handle under which the player is
/// found, the record behind that member is `player` after the update. The
/// teams themselves are not touched by it.
pub proof fn lemma_update_is_seen_in_teams(
    teams: TeamRegistryView,
    players: PlayerRegistryView,
    player: PlayerView,
    t: int,
    k: int,
)
    requires
        players.wf(),
        0 <= t < teams.teams.len(),
        0 <= k < teams.teams[t].players.len(),
        players.get(player.id) == Ok::<PlayerRef, ErrorView>(teams.teams[t].players[k]),
    ensures
        players.after_update(player).holds(teams.teams[t].players[k]),
        players.after_update(player).record(teams.teams[t].players[k]) == player,
{
    lemma_update_is_seen_through_handle(players, player, teams.teams[t].players[k]);
}

/// Deleting a player leaves the teams that have it as they are. The member
/// `k` of the team `t` reaches the record after the deletion that it reached
/// before, whether it is the deleted player or another.
pub proof fn lemma_delete_leaves_team_members(
    teams: TeamRegistryView,
    players: PlayerRegistryView,
    id: u32,
    t: int,
    k: int,
)
    requires
        players.wf(),
        players.contains(id),
        0 <= t < teams.teams.len(),
        0 <= k < teams.teams[t].players.len(),
        players.holds(teams.teams[t].players[k]),
    ensures
        players.after_delete(id).get(id) == Err::<PlayerRef, ErrorView>(player_not_found(id)),
        players.after_delete(id).holds(teams.teams[t].players[k]),
        players.after_delete(id).record(teams.teams[t].players[k]) == players.record(
            teams.teams[t].players[k],
        ),
{
    lemma_delete_keeps_records(players, id, teams.teams[t].players[k]);
}

} // verus!
