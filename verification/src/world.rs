//! The component store: entity identities, one typed table per component
//! type, a resource slot for the map, the position-and-renderable join, and
//! the deferred mutation queue that is flushed at maintain.

use vstd::prelude::*;
use crate::components::{Position, Renderable};
use crate::map::{TileMap, TileType};

verus! {

/// An opaque entity identity: a key into the component tables, with no
/// intrinsic data of its own.
#[derive(Copy, Clone, PartialEq, Eq, Structural, Debug)]
pub struct Entity {
    pub id: usize,
}

/// Configuration errors of the store; they abort setup rather than proceed
/// with undefined storage.
#[derive(Copy, Clone, PartialEq, Eq, Structural, Debug)]
pub enum WorldError {
    /// A component table was accessed before it was registered.
    Unregistered,
    /// A resource was fetched before any value was inserted for it.
    MissingResource,
}

/// Accumulates component attachments for one new entity; the attachments
/// are committed atomically when the builder is built into the store.
#[derive(Copy, Clone, PartialEq, Eq, Structural, Debug)]
pub struct EntityBuilder {
    pub position: Option<Position>,
    pub renderable: Option<Renderable>,
    pub player: bool,
}

impl EntityBuilder {
    /// An empty builder: no components attached yet.
    pub fn new() -> (b: EntityBuilder)
        ensures
            b == (EntityBuilder { position: None, renderable: None, player: false }),
    {
        EntityBuilder { position: None, renderable: None, player: false }
    }

    /// Attach a position.
    pub fn with_position(self, p: Position) -> (b: EntityBuilder)
        ensures
            b == (EntityBuilder { position: Some(p), ..self }),
    {
        EntityBuilder { position: Some(p), ..self }
    }

    /// Attach a renderable.
    pub fn with_renderable(self, r: Renderable) -> (b: EntityBuilder)
        ensures
            b == (EntityBuilder { renderable: Some(r), ..self }),
    {
        EntityBuilder { renderable: Some(r), ..self }
    }

    /// Attach the controller tag.
    pub fn with_player(self) -> (b: EntityBuilder)
        ensures
            b == (EntityBuilder { player: true, ..self }),
    {
        EntityBuilder { player: true, ..self }
    }
}

/// One buffered structural mutation, applied in submission order at
/// maintain.
#[derive(Copy, Clone, PartialEq, Eq, Structural, Debug)]
pub enum Command {
    CreateEntity(EntityBuilder),
    DestroyEntity(Entity),
    AddPosition(Entity, Position),
    AddRenderable(Entity, Renderable),
    AddPlayer(Entity),
    RemovePosition(Entity),
    RemoveRenderable(Entity),
    RemovePlayer(Entity),
}

/// The mathematical state of the store: one sequence per component table,
/// indexed by entity identity, plus the registration flags, the map
/// resource slot and the buffered mutations.
#[verifier::ext_equal]
pub ghost struct WorldView {
    pub reg_position: bool,
    pub reg_renderable: bool,
    pub reg_player: bool,
    pub positions: Seq<Option<Position>>,
    pub renderables: Seq<Option<Renderable>>,
    pub players: Seq<bool>,
    pub alive: Seq<bool>,
    pub map: Option<Seq<TileType>>,
    pub pending: Seq<Command>,
}

/// The entity exists and has not been destroyed.
pub open spec fn entity_live(v: WorldView, e: Entity) -> bool {
    e.id < v.alive.len() && v.alive[e.id as int]
}

/// The command only touches component tables that are registered; queueing
/// anything else is a configuration error.
pub open spec fn cmd_ok(c: Command, v: WorldView) -> bool {
    match c {
        Command::CreateEntity(b) => (b.position is Some ==> v.reg_position) && (b.renderable
            is Some ==> v.reg_renderable) && (b.player ==> v.reg_player),
        Command::DestroyEntity(_) => true,
        Command::AddPosition(_, _) => v.reg_position,
        Command::AddRenderable(_, _) => v.reg_renderable,
        Command::AddPlayer(_) => v.reg_player,
        Command::RemovePosition(_) => v.reg_position,
        Command::RemoveRenderable(_) => v.reg_renderable,
        Command::RemovePlayer(_) => v.reg_player,
    }
}

/// Effect of one structural mutation. Mutations that address an entity
/// that is not live — destroyed earlier in the same buffer, or never
/// created — are silently dropped.
pub open spec fn apply_command(v: WorldView, c: Command) -> WorldView {
    match c {
        Command::CreateEntity(b) => WorldView {
            alive: v.alive.push(true),
            positions: v.positions.push(b.position),
            renderables: v.renderables.push(b.renderable),
            players: v.players.push(b.player),
            ..v
        },
        Command::DestroyEntity(e) => if entity_live(v, e) {
            WorldView {
                alive: v.alive.update(e.id as int, false),
                positions: v.positions.update(e.id as int, None),
                renderables: v.renderables.update(e.id as int, None),
                players: v.players.update(e.id as int, false),
                ..v
            }
        } else {
            v
        },
        Command::AddPosition(e, p) => if entity_live(v, e) {
            WorldView { positions: v.positions.update(e.id as int, Some(p)), ..v }
        } else {
            v
        },
        Command::AddRenderable(e, r) => if entity_live(v, e) {
            WorldView { renderables: v.renderables.update(e.id as int, Some(r)), ..v }
        } else {
            v
        },
        Command::AddPlayer(e) => if entity_live(v, e) {
            WorldView { players: v.players.update(e.id as int, true), ..v }
        } else {
            v
        },
        Command::RemovePosition(e) => if entity_live(v, e) {
            WorldView { positions: v.positions.update(e.id as int, None), ..v }
        } else {
            v
        },
        Command::RemoveRenderable(e) => if entity_live(v, e) {
            WorldView { renderables: v.renderables.update(e.id as int, None), ..v }
        } else {
            v
        },
        Command::RemovePlayer(e) => if entity_live(v, e) {
            WorldView { players: v.players.update(e.id as int, false), ..v }
        } else {
            v
        },
    }
}

/// Effect of a whole buffer of mutations, applied in submission order.
pub open spec fn apply_all(v: WorldView, cmds: Seq<Command>) -> WorldView
    decreases cmds.len(),
{
    if cmds.len() == 0 {
        v
    } else {
        apply_all(apply_command(v, cmds[0]), cmds.drop_first())
    }
}

/// The state after queueing one mutation: only the buffer grows; every
/// component table is untouched until maintain.
pub open spec fn queue_view(v: WorldView, c: Command) -> WorldView {
    WorldView { pending: v.pending.push(c), ..v }
}

/// The state after maintain: the whole buffer applied in submission order,
/// then emptied.
pub open spec fn maintain_view(v: WorldView) -> WorldView {
    WorldView { pending: Seq::empty(), ..apply_all(v, v.pending) }
}

/// The join of the first `n` entity slots: each entity holding both a
/// position and a renderable, in ascending identity order.
pub open spec fn join_upto(
    pos: Seq<Option<Position>>,
    ren: Seq<Option<Renderable>>,
    n: int,
) -> Seq<(Entity, Position, Renderable)>
    decreases n,
{
    if n <= 0 {
        Seq::empty()
    } else {
        let rest = join_upto(pos, ren, n - 1);
        match (pos[n - 1], ren[n - 1]) {
            (Some(p), Some(r)) => rest.push((Entity { id: (n - 1) as usize }, p, r)),
            _ => rest,
        }
    }
}

/// The join of the position and renderable tables.
pub open spec fn join_spec(pos: Seq<Option<Position>>, ren: Seq<Option<Renderable>>) -> Seq<
    (Entity, Position, Renderable),
> {
    join_upto(pos, ren, pos.len() as int)
}

/// Internal consistency of the store: the tables cover the same entities,
/// destroyed entities carry no components, unregistered tables are empty,
/// the map resource covers the grid, and every buffered mutation only
/// touches registered tables.
pub open spec fn inv(v: WorldView) -> bool {
    &&& v.positions.len() == v.alive.len()
    &&& v.renderables.len() == v.alive.len()
    &&& v.players.len() == v.alive.len()
    &&& (forall|i: int|
        0 <= i < v.alive.len() && !v.alive[i] ==> #[trigger] v.positions[i] is None
            && v.renderables[i] is None && !v.players[i])
    &&& (!v.reg_position ==> forall|i: int|
        0 <= i < v.positions.len() ==> #[trigger] v.positions[i] is None)
    &&& (!v.reg_renderable ==> forall|i: int|
        0 <= i < v.renderables.len() ==> #[trigger] v.renderables[i] is None)
    &&& (!v.reg_player ==> forall|i: int| 0 <= i < v.players.len() ==> !(#[trigger] v.players[i]))
    &&& (v.map matches Some(t) ==> t.len() == 4000)
    &&& (forall|i: int| 0 <= i < v.pending.len() ==> cmd_ok(#[trigger] v.pending[i], v))
}

/// The component store. It owns every component table and entity identity,
/// the resource slot holding the map, and the buffer of deferred
/// structural mutations.
pub struct World {
    pub(crate) reg_position: bool,
    pub(crate) reg_renderable: bool,
    pub(crate) reg_player: bool,
    pub(crate) positions: Vec<Option<Position>>,
    pub(crate) renderables: Vec<Option<Renderable>>,
    pub(crate) players: Vec<bool>,
    pub(crate) alive: Vec<bool>,
    pub(crate) map: Option<TileMap>,
    pub(crate) pending: Vec<Command>,
}

impl View for World {
    type V = WorldView;

    closed spec fn view(&self) -> WorldView {
        WorldView {
            reg_position: self.reg_position,
            reg_renderable: self.reg_renderable,
            reg_player: self.reg_player,
            positions: self.positions@,
            renderables: self.renderables@,
            players: self.players@,
            alive: self.alive@,
            map: match self.map {
                Some(m) => Some(m@),
                None => None,
            },
            pending: self.pending@,
        }
    }
}

impl World {
    /// The store is internally consistent. Every constructor establishes
    /// this and every method preserves it.
    pub open spec fn wf(self) -> bool {
        inv(self@)
    }

    /// An empty store: no entities, no registered tables, no map resource,
    /// no buffered mutations.
    pub fn new() -> (w: World)
        ensures
            w.wf(),
            !w@.reg_position,
            !w@.reg_renderable,
            !w@.reg_player,
            w@.alive.len() == 0,
            w@.positions.len() == 0,
            w@.renderables.len() == 0,
            w@.players.len() == 0,
            w@.map is None,
            w@.pending.len() == 0,
    {
        World {
            reg_position: false,
            reg_renderable: false,
            reg_player: false,
            positions: Vec::new(),
            renderables: Vec::new(),
            players: Vec::new(),
            alive: Vec::new(),
            map: None,
            pending: Vec::new(),
        }
    }

    /// Declare that the position table has backing storage; required
    /// before any entity is given a position.
    pub fn register_position(&mut self)
        requires
            old(self).wf(),
        ensures
            final(self).wf(),
            final(self)@ == (WorldView { reg_position: true, ..old(self)@ }),
    {
        self.reg_position = true;
    }

    /// Declare that the renderable table has backing storage.
    pub fn register_renderable(&mut self)
        requires
            old(self).wf(),
        ensures
            final(self).wf(),
            final(self)@ == (WorldView { reg_renderable: true, ..old(self)@ }),
    {
        self.reg_renderable = true;
    }

    /// Declare that the controller-tag table has backing storage.
    pub fn register_player(&mut self)
        requires
            old(self).wf(),
        ensures
            final(self).wf(),
            final(self)@ == (WorldView { reg_player: true, ..old(self)@ }),
    {
        self.reg_player = true;
    }

    /// Insert the map resource; the slot holds exactly one value, so a
    /// second insert replaces the first.
    pub fn insert_map(&mut self, m: TileMap)
        requires
            old(self).wf(),
        ensures
            final(self).wf(),
            final(self)@ == (WorldView { map: Some(m@), ..old(self)@ }),
    {
        proof {
            use_type_invariant(&m);
        }
        self.map = Some(m);
    }

    /// Fetch the map resource by reference; fetching before any value was
    /// inserted is a configuration error.
    pub fn fetch_map(&self) -> (r: Result<&TileMap, WorldError>)
        ensures
            self@.map is Some ==> (r matches Ok(m) && Some(m@) == self@.map),
            self@.map is None ==> r == Err::<&TileMap, WorldError>(WorldError::MissingResource),
    {
        match &self.map {
            Some(m) => Ok(m),
            None => Err(WorldError::MissingResource),
        }
    }

    /// Start assembling a new entity; the returned builder accumulates
    /// component attachments and commits them atomically on build.
    pub fn create_entity(&self) -> (b: EntityBuilder)
        ensures
            b == (EntityBuilder { position: None, renderable: None, player: false }),
    {
        EntityBuilder::new()
    }

    /// Commit a builder: allocate a fresh entity identity and attach every
    /// accumulated component at once. Attaching a component whose table
    /// was never registered is a configuration error and nothing changes.
    pub fn build(&mut self, b: EntityBuilder) -> (r: Result<Entity, WorldError>)
        requires
            old(self).wf(),
        ensures
            final(self).wf(),
            cmd_ok(Command::CreateEntity(b), old(self)@) ==> (r matches Ok(e) && e.id == old(
                self,
            )@.alive.len() && final(self)@ == apply_command(old(self)@, Command::CreateEntity(b))),
            !cmd_ok(Command::CreateEntity(b), old(self)@) ==> r == Err::<Entity, WorldError>(
                WorldError::Unregistered,
            ) && final(self)@ == old(self)@,
    {
        if (b.position.is_some() && !self.reg_position) || (b.renderable.is_some()
            && !self.reg_renderable) || (b.player && !self.reg_player) {
            return Err(WorldError::Unregistered);
        }
        let id = self.alive.len();
        self.alive.push(true);
        self.positions.push(b.position);
        self.renderables.push(b.renderable);
        self.players.push(b.player);
        proof {
            assert(self@ =~= apply_command(old(self)@, Command::CreateEntity(b)));
        }
        Ok(Entity { id })
    }

    /// Whether the position table has been registered.
    pub fn position_registered(&self) -> (r: bool)
        ensures
            r == self@.reg_position,
    {
        self.reg_position
    }

    /// Whether the renderable table has been registered.
    pub fn renderable_registered(&self) -> (r: bool)
        ensures
            r == self@.reg_renderable,
    {
        self.reg_renderable
    }

    /// Whether the controller-tag table has been registered.
    pub fn player_registered(&self) -> (r: bool)
        ensures
            r == self@.reg_player,
    {
        self.reg_player
    }

    /// Whether the map resource slot holds a value.
    pub fn has_map(&self) -> (r: bool)
        ensures
            r == (self@.map is Some),
    {
        self.map.is_some()
    }

    /// Move every controller-tagged entity by the same signed delta, each
    /// with its own independent collision check against the map resource:
    /// commit the clamped candidate when its tile is passable, reject —
    /// leaving the position untouched — when the candidate is off the grid
    /// or a wall. Accessing an unregistered table or a missing map
    /// resource is a configuration error and nothing changes.
    pub fn move_tagged(&mut self, delta_x: i32, delta_y: i32) -> (r: Result<(), WorldError>)
        requires
            old(self).wf(),
        ensures
            final(self).wf(),
            !(old(self)@.reg_position && old(self)@.reg_player) ==> r == Err::<(), WorldError>(
                WorldError::Unregistered,
            ) && final(self)@ == old(self)@,
            old(self)@.reg_position && old(self)@.reg_player && old(self)@.map is None ==> r
                == Err::<(), WorldError>(WorldError::MissingResource) && final(self)@ == old(
                self,
            )@,
            crate::movement::movement_ready(old(self)@) ==> (r matches Ok(u) && final(self)@
                == crate::movement::moved_view(old(self)@, delta_x as int, delta_y as int)),
    {
        if !(self.reg_position && self.reg_player) {
            return Err(WorldError::Unregistered);
        }
        if self.map.is_none() {
            return Err(WorldError::MissingResource);
        }
        let ghost v0 = self@;
        let n = self.positions.len();
        let mut i: usize = 0;
        while i < n
            invariant
                n == v0.positions.len(),
                i <= n,
                self.reg_position == v0.reg_position,
                self.reg_renderable == v0.reg_renderable,
                self.reg_player == v0.reg_player,
                self.renderables@ == v0.renderables,
                self.players@ == v0.players,
                self.alive@ == v0.alive,
                self.pending@ == v0.pending,
                self@.map == v0.map,
                v0.map is Some,
                self.positions@.len() == n,
                v0.players.len() == n,
                inv(v0),
                forall|k: int|
                    0 <= k < i ==> self.positions@[k] == crate::movement::moved_positions(
                        v0,
                        delta_x as int,
                        delta_y as int,
                    )[k],
                forall|k: int| i <= k < n ==> self.positions@[k] == v0.positions[k],
            decreases n - i,
        {
            if self.players[i] {
                if let Some(p) = self.positions[i] {
                    let cx: i64 = p.x as i64 + delta_x as i64;
                    let cy: i64 = p.y as i64 + delta_y as i64;
                    if 0 <= cx && cx < 80 && 0 <= cy && cy < 50 {
                        let looked_up = match &self.map {
                            Some(m) => m.tile_at(cx as i32, cy as i32),
                            None => Err(crate::map::MapError::OutOfBounds),
                        };
                        if let Ok(tile) = looked_up {
                            if tile != TileType::Wall {
                                // The candidate passed the bounds check, so
                                // the clamp commits it unchanged.
                                let nx: i32 = if cx < 0 {
                                    0
                                } else if cx > 79 {
                                    79
                                } else {
                                    cx as i32
                                };
                                let ny: i32 = if cy < 0 {
                                    0
                                } else if cy > 49 {
                                    49
                                } else {
                                    cy as i32
                                };
                                self.positions[i] = Some(Position { x: nx, y: ny });
                            }
                        }
                    }
                }
            }
            proof {
                assert(self.positions@[i as int] == crate::movement::moved_positions(
                    v0,
                    delta_x as int,
                    delta_y as int,
                )[i as int]);
            }
            i = i + 1;
        }
        proof {
            assert(self.positions@ =~= crate::movement::moved_positions(
                v0,
                delta_x as int,
                delta_y as int,
            ));
            assert(self@ =~= crate::movement::moved_view(v0, delta_x as int, delta_y as int));
            crate::movement::lemma_moved_view_inv(v0, delta_x as int, delta_y as int);
        }
        Ok(())
    }

    /// Read the position attached to an entity, if any; reading a table
    /// that was never registered is a configuration error.
    pub fn read_position(&self, e: Entity) -> (r: Result<Option<Position>, WorldError>)
        requires
            self.wf(),
        ensures
            self@.reg_position ==> r == Ok::<Option<Position>, WorldError>(
                position_of(self@, e),
            ),
            !self@.reg_position ==> r == Err::<Option<Position>, WorldError>(
                WorldError::Unregistered,
            ),
    {
        if !self.reg_position {
            Err(WorldError::Unregistered)
        } else if e.id < self.positions.len() {
            Ok(self.positions[e.id])
        } else {
            Ok(None)
        }
    }

    /// Read the renderable attached to an entity, if any.
    pub fn read_renderable(&self, e: Entity) -> (r: Result<Option<Renderable>, WorldError>)
        requires
            self.wf(),
        ensures
            self@.reg_renderable ==> r == Ok::<Option<Renderable>, WorldError>(
                renderable_of(self@, e),
            ),
            !self@.reg_renderable ==> r == Err::<Option<Renderable>, WorldError>(
                WorldError::Unregistered,
            ),
    {
        if !self.reg_renderable {
            Err(WorldError::Unregistered)
        } else if e.id < self.renderables.len() {
            Ok(self.renderables[e.id])
        } else {
            Ok(None)
        }
    }

    /// Whether the entity carries the controller tag.
    pub fn read_player(&self, e: Entity) -> (r: Result<bool, WorldError>)
        requires
            self.wf(),
        ensures
            self@.reg_player ==> r == Ok::<bool, WorldError>(player_of(self@, e)),
            !self@.reg_player ==> r == Err::<bool, WorldError>(WorldError::Unregistered),
    {
        if !self.reg_player {
            Err(WorldError::Unregistered)
        } else if e.id < self.players.len() {
            Ok(self.players[e.id])
        } else {
            Ok(false)
        }
    }

    /// Join the position and renderable tables: exactly the entities that
    /// carry both components, each with its two component values, in
    /// ascending identity order. Joining on an unregistered table is a
    /// configuration error, never a silent empty result.
    pub fn join_position_renderable(&self) -> (r: Result<
        Vec<(Entity, Position, Renderable)>,
        WorldError,
    >)
        requires
            self.wf(),
        ensures
            self@.reg_position && self@.reg_renderable ==> (r matches Ok(v) && v@ == join_spec(
                self@.positions,
                self@.renderables,
            )),
            !(self@.reg_position && self@.reg_renderable) ==> r == Err::<
                Vec<(Entity, Position, Renderable)>,
                WorldError,
            >(WorldError::Unregistered),
    {
        if !(self.reg_position && self.reg_renderable) {
            return Err(WorldError::Unregistered);
        }
        let n = self.positions.len();
        let mut out: Vec<(Entity, Position, Renderable)> = Vec::new();
        let mut i: usize = 0;
        while i < n
            invariant
                n == self@.positions.len(),
                self@.renderables.len() == n,
                i <= n,
                out@ == join_upto(self@.positions, self@.renderables, i as int),
            decreases n - i,
        {
            match (self.positions[i], self.renderables[i]) {
                (Some(p), Some(r)) => {
                    out.push((Entity { id: i }, p, r));
                },
                _ => {},
            }
            i = i + 1;
        }
        Ok(out)
    }

    /// Buffer a structural mutation for the next maintain; the component
    /// tables are untouched now. Queueing a mutation against an
    /// unregistered table is a configuration error and nothing changes.
    pub fn queue(&mut self, c: Command) -> (r: Result<(), WorldError>)
        requires
            old(self).wf(),
        ensures
            final(self).wf(),
            cmd_ok(c, old(self)@) ==> (r matches Ok(u) && final(self)@ == queue_view(
                old(self)@,
                c,
            )),
            !cmd_ok(c, old(self)@) ==> r == Err::<(), WorldError>(WorldError::Unregistered)
                && final(self)@ == old(self)@,
    {
        let ok = match c {
            Command::CreateEntity(b) => (!b.position.is_some() || self.reg_position)
                && (!b.renderable.is_some() || self.reg_renderable) && (!b.player
                || self.reg_player),
            Command::DestroyEntity(_) => true,
            Command::AddPosition(_, _) => self.reg_position,
            Command::AddRenderable(_, _) => self.reg_renderable,
            Command::AddPlayer(_) => self.reg_player,
            Command::RemovePosition(_) => self.reg_position,
            Command::RemoveRenderable(_) => self.reg_renderable,
            Command::RemovePlayer(_) => self.reg_player,
        };
        if !ok {
            return Err(WorldError::Unregistered);
        }
        self.pending.push(c);
        proof {
            assert(self@ =~= queue_view(old(self)@, c));
        }
        Ok(())
    }

    /// Flush the deferred mutation queue: apply every buffered mutation in
    /// submission order — silently dropping those whose entity was already
    /// destroyed — and leave the buffer empty.
    pub fn maintain(&mut self)
        requires
            old(self).wf(),
        ensures
            final(self).wf(),
            final(self)@ == maintain_view(old(self)@),
    {
        let n = self.pending.len();
        let mut k: usize = 0;
        while k < n
            invariant
                inv(self@),
                n == old(self)@.pending.len(),
                k <= n,
                self@.pending == old(self)@.pending,
                self@ == apply_all(old(self)@, old(self)@.pending.take(k as int)),
            decreases n - k,
        {
            let c = self.pending[k];
            proof {
                assert(cmd_ok(c, self@));
                assert(old(self)@.pending.take(k as int + 1) =~= old(self)@.pending.take(
                    k as int,
                ).push(c));
                lemma_apply_all_push(old(self)@, old(self)@.pending.take(k as int), c);
                lemma_apply_command_inv(self@, c);
            }
            let ghost prev = self@;
            self.apply_one(c);
            proof {
                assert(self@ =~= apply_command(prev, c));
            }
            k = k + 1;
        }
        proof {
            assert(old(self)@.pending.take(n as int) =~= old(self)@.pending);
        }
        self.pending.clear();
        proof {
            assert(self@ =~= maintain_view(old(self)@));
        }
    }

    /// Apply one buffered mutation to the tables; the buffer itself is
    /// left as it stands.
    fn apply_one(&mut self, c: Command)
        requires
            inv(old(self)@),
            cmd_ok(c, old(self)@),
        ensures
            final(self)@ == (WorldView {
                pending: old(self)@.pending,
                ..apply_command(old(self)@, c)
            }),
    {
        match c {
            Command::CreateEntity(b) => {
                self.alive.push(true);
                self.positions.push(b.position);
                self.renderables.push(b.renderable);
                self.players.push(b.player);
            },
            Command::DestroyEntity(e) => {
                if e.id < self.alive.len() && self.alive[e.id] {
                    self.alive[e.id] = false;
                    self.positions[e.id] = None;
                    self.renderables[e.id] = None;
                    self.players[e.id] = false;
                }
            },
            Command::AddPosition(e, p) => {
                if e.id < self.alive.len() && self.alive[e.id] {
                    self.positions[e.id] = Some(p);
                }
            },
            Command::AddRenderable(e, r) => {
                if e.id < self.alive.len() && self.alive[e.id] {
                    self.renderables[e.id] = Some(r);
                }
            },
            Command::AddPlayer(e) => {
                if e.id < self.alive.len() && self.alive[e.id] {
                    self.players[e.id] = true;
                }
            },
            Command::RemovePosition(e) => {
                if e.id < self.alive.len() && self.alive[e.id] {
                    self.positions[e.id] = None;
                }
            },
            Command::RemoveRenderable(e) => {
                if e.id < self.alive.len() && self.alive[e.id] {
                    self.renderables[e.id] = None;
                }
            },
            Command::RemovePlayer(e) => {
                if e.id < self.alive.len() && self.alive[e.id] {
                    self.players[e.id] = false;
                }
            },
        }
        proof {
            assert(self@ =~= (WorldView {
                pending: old(self)@.pending,
                ..apply_command(old(self)@, c)
            }));
        }
    }
}

/// The position an entity carries, if any; entities that were never
/// created carry nothing.
pub open spec fn position_of(v: WorldView, e: Entity) -> Option<Position> {
    if e.id < v.positions.len() {
        v.positions[e.id as int]
    } else {
        None
    }
}

/// The renderable an entity carries, if any.
pub open spec fn renderable_of(v: WorldView, e: Entity) -> Option<Renderable> {
    if e.id < v.renderables.len() {
        v.renderables[e.id as int]
    } else {
        None
    }
}

/// Whether an entity carries the controller tag.
pub open spec fn player_of(v: WorldView, e: Entity) -> bool {
    e.id < v.players.len() && v.players[e.id as int]
}

/// One structural mutation preserves the store's internal consistency,
/// provided it only touches registered tables.
pub proof fn lemma_apply_command_inv(v: WorldView, c: Command)
    requires
        inv(v),
        cmd_ok(c, v),
    ensures
        inv(apply_command(v, c)),
{
}

/// Folding one more mutation onto a buffer applies it last.
pub proof fn lemma_apply_all_push(v: WorldView, cmds: Seq<Command>, c: Command)
    ensures
        apply_all(v, cmds.push(c)) == apply_command(apply_all(v, cmds), c),
    decreases cmds.len(),
{
    if cmds.len() == 0 {
        assert(cmds.push(c)[0] == c);
        assert(cmds.push(c).drop_first() =~= Seq::<Command>::empty());
        assert(apply_all(v, cmds.push(c)) == apply_all(
            apply_command(v, c),
            cmds.push(c).drop_first(),
        ));
        assert(apply_all(apply_command(v, c), Seq::<Command>::empty()) == apply_command(v, c));
        assert(apply_all(v, cmds) == v);
    } else {
        assert(cmds.push(c)[0] == cmds[0]);
        assert(cmds.push(c).drop_first() =~= cmds.drop_first().push(c));
        lemma_apply_all_push(apply_command(v, cmds[0]), cmds.drop_first(), c);
        assert(apply_all(v, cmds.push(c)) == apply_all(
            apply_command(v, cmds[0]),
            cmds.drop_first().push(c),
        ));
        assert(apply_all(v, cmds) == apply_all(apply_command(v, cmds[0]), cmds.drop_first()));
    }
}

/// One structural mutation leaves the buffer field alone, wherever that
/// field starts.
pub proof fn lemma_apply_command_pending(v: WorldView, pnd: Seq<Command>, c: Command)
    ensures
        apply_command(WorldView { pending: pnd, ..v }, c) == (WorldView {
            pending: pnd,
            ..apply_command(v, c)
        }),
{
    assert(apply_command(WorldView { pending: pnd, ..v }, c) =~= (WorldView {
        pending: pnd,
        ..apply_command(v, c)
    }));
}

/// Applying a buffer of mutations only touches the component tables; the
/// buffer field itself rides along unchanged.
pub proof fn lemma_apply_all_pending(v: WorldView, pnd: Seq<Command>, cmds: Seq<Command>)
    ensures
        apply_all(WorldView { pending: pnd, ..v }, cmds) == (WorldView {
            pending: pnd,
            ..apply_all(v, cmds)
        }),
    decreases cmds.len(),
{
    if cmds.len() == 0 {
        assert(apply_all(WorldView { pending: pnd, ..v }, cmds) =~= (WorldView {
            pending: pnd,
            ..apply_all(v, cmds)
        }));
    } else {
        lemma_apply_command_pending(v, pnd, cmds[0]);
        lemma_apply_all_pending(apply_command(v, cmds[0]), pnd, cmds.drop_first());
        assert(apply_all(WorldView { pending: pnd, ..v }, cmds) == apply_all(
            apply_command(WorldView { pending: pnd, ..v }, cmds[0]),
            cmds.drop_first(),
        ));
    }
}

/// Structural mutations only touch the component tables: the registration
/// flags and the map resource ride through a whole buffer unchanged.
pub proof fn lemma_apply_all_meta(v: WorldView, cmds: Seq<Command>)
    ensures
        apply_all(v, cmds).reg_position == v.reg_position,
        apply_all(v, cmds).reg_renderable == v.reg_renderable,
        apply_all(v, cmds).reg_player == v.reg_player,
        apply_all(v, cmds).map == v.map,
    decreases cmds.len(),
{
    if cmds.len() > 0 {
        lemma_apply_all_meta(apply_command(v, cmds[0]), cmds.drop_first());
    }
}

/// Deferred-apply ordering: queueing a structural mutation leaves every
/// component table — and hence the join — unchanged for the rest of the
/// tick, and the next maintain applies the whole buffer in submission
/// order, so the queued mutation takes effect exactly after everything
/// queued before it.
pub proof fn lemma_deferred_apply_ordering(v: WorldView, c: Command)
    ensures
        queue_view(v, c).positions == v.positions,
        queue_view(v, c).renderables == v.renderables,
        queue_view(v, c).players == v.players,
        queue_view(v, c).alive == v.alive,
        join_spec(queue_view(v, c).positions, queue_view(v, c).renderables) == join_spec(
            v.positions,
            v.renderables,
        ),
        maintain_view(queue_view(v, c)) == apply_command(maintain_view(v), c),
{
    let qv = queue_view(v, c);
    assert(qv =~= (WorldView { pending: v.pending.push(c), ..v }));
    lemma_apply_all_pending(v, v.pending.push(c), v.pending.push(c));
    lemma_apply_all_push(v, v.pending, c);
    lemma_apply_command_pending(apply_all(v, v.pending), Seq::empty(), c);
    assert(maintain_view(qv) =~= (WorldView {
        pending: Seq::empty(),
        ..apply_command(apply_all(v, v.pending), c)
    }));
    assert(maintain_view(v) =~= (WorldView { pending: Seq::empty(), ..apply_all(v, v.pending) }));
    assert(apply_command(maintain_view(v), c) =~= (WorldView {
        pending: Seq::empty(),
        ..apply_command(apply_all(v, v.pending), c)
    }));
}

/// Join correctness, first `n` slots: a tuple is in the join exactly when
/// its entity is among those slots and carries both components.
proof fn lemma_join_upto_contains(
    pos: Seq<Option<Position>>,
    ren: Seq<Option<Renderable>>,
    n: int,
    e: Entity,
    p: Position,
    r: Renderable,
)
    requires
        0 <= n <= pos.len(),
        pos.len() <= usize::MAX,
        ren.len() == pos.len(),
    ensures
        join_upto(pos, ren, n).contains((e, p, r)) <==> (e.id < n && pos[e.id as int] == Some(p)
            && ren[e.id as int] == Some(r)),
    decreases n,
{
    if n > 0 {
        lemma_join_upto_contains(pos, ren, n - 1, e, p, r);
        let rest = join_upto(pos, ren, n - 1);
        match (pos[n - 1], ren[n - 1]) {
            (Some(pp), Some(rr)) => {
                let t = (Entity { id: (n - 1) as usize }, pp, rr);
                let s = rest.push(t);
                assert(join_upto(pos, ren, n) == s);
                assert(s[rest.len() as int] == t);
                if s.contains((e, p, r)) {
                    let i = choose|i: int| 0 <= i < s.len() && s[i] == (e, p, r);
                    if i < rest.len() {
                        assert(rest[i] == (e, p, r));
                        assert(rest.contains((e, p, r)));
                    } else {
                        assert((e, p, r) == t);
                    }
                }
                if e.id < n && pos[e.id as int] == Some(p) && ren[e.id as int] == Some(r) {
                    if e.id < n - 1 {
                        let i = choose|i: int| 0 <= i < rest.len() && rest[i] == (e, p, r);
                        assert(s[i] == (e, p, r));
                    } else {
                        assert(e.id == n - 1 && pp == p && rr == r);
                        assert(e == (Entity { id: (n - 1) as usize }));
                        assert(s[rest.len() as int] == (e, p, r));
                    }
                }
            },
            _ => {
                assert(join_upto(pos, ren, n) == rest);
            },
        }
    }
}

/// Join correctness: the join of the position and renderable tables
/// contains a tuple exactly when that entity carries both the position
/// and the renderable — never one without the other.
pub proof fn lemma_join_correct(
    pos: Seq<Option<Position>>,
    ren: Seq<Option<Renderable>>,
    e: Entity,
    p: Position,
    r: Renderable,
)
    requires
        pos.len() == ren.len(),
        pos.len() <= usize::MAX,
    ensures
        join_spec(pos, ren).contains((e, p, r)) <==> (e.id < pos.len() && pos[e.id as int] == Some(
            p,
        ) && ren[e.id as int] == Some(r)),
{
    lemma_join_upto_contains(pos, ren, pos.len() as int, e, p, r);
}

} // verus!
