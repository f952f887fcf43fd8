//! Generation of an arena by binary space partition.

use crate::engine::random::random_between;
use crate::engine::terrain::TerrainInfo;
use crate::engine::terrain::TerrainType;
use vstd::prelude::*;

verus! {

/// Narrowest door of a room, in cells.
pub const MIN_WIDTH: usize = 4;

/// Shortest side of a room, in cells.
pub const MIN_ROOM_WIDTH: usize = 6;

/// A rectangle of the arena in the partition tree: a room where it has no
/// children, else the union of its two children.
pub struct BSPNode {
    pub x: usize,
    pub y: usize,
    pub width: usize,
    pub height: usize,
    pub children: Option<(Box<BSPNode>, Box<BSPNode>)>,
}

/// What an arena is generated from.
#[derive(Clone, Copy, Debug)]
pub struct TerrainGenParams {
    pub width: usize,
    pub height: usize,
    /// How many rounds of splitting the rooms go through.
    pub branch_depth: usize,
    /// How likely a room that is large enough is split in a round, in
    /// thousandths.
    pub branch_prob: u32,
}

/// The doors of one room: their widths and where they start, along the
/// bottom wall and along the right wall.
#[derive(Clone, Copy, Debug, PartialEq, Eq, Structural)]
pub struct Doors {
    pub door_width_horizontal: usize,
    pub door_offset_horizontal: usize,
    pub door_width_vertical: usize,
    pub door_offset_vertical: usize,
}

impl BSPNode {
    /// Whether the node covers the same rectangle as `other`.
    pub open spec fn same_area(self, other: BSPNode) -> bool {
        &&& self.x == other.x
        &&& self.y == other.y
        &&& self.width == other.width
        &&& self.height == other.height
    }

    /// Whether the rectangle of the node lies inside the rectangle of
    /// `outer`.
    pub open spec fn inside(self, outer: BSPNode) -> bool {
        &&& outer.x <= self.x
        &&& self.x + self.width <= outer.x + outer.width
        &&& outer.y <= self.y
        &&& self.y + self.height <= outer.y + outer.height
    }

    /// Whether the tree is a partition into rooms: every rectangle has
    /// sides of at least [`MIN_ROOM_WIDTH`] and corners that are addresses,
    /// and children lie inside their parent.
    pub open spec fn ok(self) -> bool
        decreases self,
    {
        &&& self.width >= MIN_ROOM_WIDTH
        &&& self.height >= MIN_ROOM_WIDTH
        &&& self.x + self.width <= usize::MAX
        &&& self.y + self.height <= usize::MAX
        &&& match self.children {
            None => true,
            Some((first, second)) => {
                &&& first.ok()
                &&& second.ok()
                &&& first.inside(self)
                &&& second.inside(self)
            },
        }
    }

    /// How many times the tree is split on its longest way from the root
    /// to a room.
    pub open spec fn depth(self) -> nat
        decreases self,
    {
        match self.children {
            None => 0,
            Some((first, second)) => if first.depth() >= second.depth() {
                first.depth() + 1
            } else {
                second.depth() + 1
            },
        }
    }

    /// The rooms of the tree, left to right.
    pub open spec fn leaves(self) -> Seq<BSPNode>
        decreases self,
    {
        match self.children {
            None => seq![self],
            Some((first, second)) => first.leaves() + second.leaves(),
        }
    }

    /// Whether `doors` can be the doors of the room: each is at least
    /// [`MIN_WIDTH`] wide, narrower than twice that and than the wall
    /// without its corner, and lies within the wall before the corner.
    pub open spec fn doors_ok(self, doors: Doors) -> bool {
        &&& MIN_WIDTH <= doors.door_width_horizontal < self.width - 1
        &&& doors.door_width_horizontal < 2 * MIN_WIDTH
        &&& doors.door_offset_horizontal + doors.door_width_horizontal < self.width
        &&& MIN_WIDTH <= doors.door_width_vertical < self.height - 1
        &&& doors.door_width_vertical < 2 * MIN_WIDTH
        &&& doors.door_offset_vertical + doors.door_width_vertical < self.height
    }
}

/// Every room of a partition is a well-formed room inside the root.
pub proof fn lemma_leaves_inside(node: BSPNode)
    requires
        node.ok(),
    ensures
        node.leaves().len() > 0,
        forall|i: int|
            0 <= i < node.leaves().len() ==> {
                &&& (#[trigger] node.leaves()[i]).inside(node)
                &&& node.leaves()[i].ok()
                &&& node.leaves()[i].children.is_none()
            },
    decreases node,
{
    match node.children {
        None => {},
        Some((first, second)) => {
            lemma_leaves_inside(*first);
            lemma_leaves_inside(*second);
            assert forall|i: int| 0 <= i < node.leaves().len() implies {
                &&& (#[trigger] node.leaves()[i]).inside(node)
                &&& node.leaves()[i].ok()
                &&& node.leaves()[i].children.is_none()
            } by {
                if i < first.leaves().len() {
                    assert(node.leaves()[i] == first.leaves()[i]);
                } else {
                    assert(node.leaves()[i] == second.leaves()[i - first.leaves().len()]);
                }
            }
        },
    }
}

/// The terrain with one kind of terrain painted over the rectangle of
/// `width` by `height` cells at (`x`, `y`), on an arena `arena_width`
/// cells wide.
pub open spec fn painted(
    terrain: Seq<TerrainInfo>,
    arena_width: int,
    x: int,
    y: int,
    width: int,
    height: int,
    terrain_type: TerrainType,
) -> Seq<TerrainInfo> {
    Seq::new(
        terrain.len(),
        |i: int|
            if x <= i % arena_width < x + width && y <= i / arena_width < y + height {
                TerrainInfo { terrain_type: terrain_type }
            } else {
                terrain[i]
            },
    )
}

/// The terrain with a room carved into it: floor inside, a wall along the
/// bottom row and the right column, and a door in each of the two walls.
pub open spec fn carved(
    terrain: Seq<TerrainInfo>,
    arena_width: int,
    room: BSPNode,
    doors: Doors,
) -> Seq<TerrainInfo> {
    let floor = painted(
        terrain,
        arena_width,
        room.x as int,
        room.y as int,
        room.width - 1,
        room.height - 1,
        TerrainType::Floor,
    );
    let bottom = painted(
        floor,
        arena_width,
        room.x as int,
        room.y + room.height - 1,
        room.width as int,
        1,
        TerrainType::Wall,
    );
    let right = painted(
        bottom,
        arena_width,
        room.x + room.width - 1,
        room.y as int,
        1,
        room.height as int,
        TerrainType::Wall,
    );
    let door_below = painted(
        right,
        arena_width,
        room.x + doors.door_offset_horizontal,
        room.y + room.height - 1,
        doors.door_width_horizontal as int,
        1,
        TerrainType::Floor,
    );
    painted(
        door_below,
        arena_width,
        room.x + room.width - 1,
        room.y + doors.door_offset_vertical,
        1,
        doors.door_width_vertical as int,
        TerrainType::Floor,
    )
}

/// The terrain with the rooms carved into it one after the other, each
/// with its doors.
pub open spec fn carved_all(
    terrain: Seq<TerrainInfo>,
    arena_width: int,
    rooms: Seq<BSPNode>,
    doors: Seq<Doors>,
) -> Seq<TerrainInfo>
    decreases rooms.len(),
{
    if rooms.len() == 0 || doors.len() == 0 {
        terrain
    } else {
        carved(
            carved_all(terrain, arena_width, rooms.drop_last(), doors.drop_last()),
            arena_width,
            rooms.last(),
            doors.last(),
        )
    }
}

/// An arena of nothing but empty cells.
pub open spec fn blank(cells: nat) -> Seq<TerrainInfo> {
    Seq::new(cells, |i: int| TerrainInfo { terrain_type: TerrainType::Empty })
}

/// Whether `terrain` is what the partition `root` of the whole arena
/// gives when each of its rooms is carved with the doors listed for it.
/// The partition is split no deeper than there were rounds of splitting,
/// and not at all where there was no round or no likelihood of a split.
pub open spec fn generated_from(
    params: &TerrainGenParams,
    terrain: Seq<TerrainInfo>,
    root: BSPNode,
    doors: Seq<Doors>,
) -> bool {
    &&& root.ok()
    &&& root.x == 0
    &&& root.y == 0
    &&& root.width == params.width
    &&& root.height == params.height
    &&& root.depth() <= params.branch_depth
    &&& (params.branch_depth == 0 || params.branch_prob == 0 ==> root.children.is_none())
    &&& doors.len() == root.leaves().len()
    &&& forall|i: int| 0 <= i < doors.len() ==> root.leaves()[i].doors_ok(#[trigger] doors[i])
    &&& terrain == carved_all(
        blank((params.width * params.height) as nat),
        params.width as int,
        root.leaves(),
        doors,
    )
}

/// Whether the square of side `side` at (`x`, `y`) is nothing but floor,
/// on an arena `arena_width` cells wide.
pub open spec fn floor_block(
    terrain: Seq<TerrainInfo>,
    arena_width: int,
    x: int,
    y: int,
    side: int,
) -> bool {
    forall|dx: int, dy: int|
        0 <= dx < side && 0 <= dy < side ==> (#[trigger] terrain[(x + dx) + (y + dy)
            * arena_width]).terrain_type == TerrainType::Floor
}

/// Carving rooms keeps the number of cells.
pub proof fn lemma_carved_all_len(
    terrain: Seq<TerrainInfo>,
    arena_width: int,
    rooms: Seq<BSPNode>,
    doors: Seq<Doors>,
)
    ensures
        carved_all(terrain, arena_width, rooms, doors).len() == terrain.len(),
    decreases rooms.len(),
{
    if rooms.len() > 0 && doors.len() > 0 {
        lemma_carved_all_len(terrain, arena_width, rooms.drop_last(), doors.drop_last());
    }
}

/// Every generated arena has room to stand: the room that is carved last
/// keeps its floor, a block of at least five by five cells inside the
/// arena.
pub proof fn lemma_generated_has_floor(
    params: &TerrainGenParams,
    terrain: Seq<TerrainInfo>,
    root: BSPNode,
    doors: Seq<Doors>,
)
    requires
        generated_from(params, terrain, root, doors),
    ensures
        terrain.len() == params.width * params.height,
        exists|x: int, y: int|
            0 <= x && x + 5 <= params.width && 0 <= y && y + 5 <= params.height
                && #[trigger] floor_block(terrain, params.width as int, x, y, 5),
{
    lemma_leaves_inside(root);
    let w = params.width as int;
    let rooms = root.leaves();
    let room = rooms.last();
    let drawn = doors.last();
    assert(room == rooms[rooms.len() - 1]);
    assert(drawn == doors[doors.len() - 1]);
    assert(room.inside(root) && room.ok());
    assert(room.doors_ok(drawn));
    let below = carved_all(
        blank((params.width * params.height) as nat),
        w,
        rooms.drop_last(),
        doors.drop_last(),
    );
    lemma_carved_all_len(
        blank((params.width * params.height) as nat),
        w,
        rooms.drop_last(),
        doors.drop_last(),
    );
    assert(terrain == carved(below, w, room, drawn));
    let x = room.x as int;
    let y = room.y as int;
    assert forall|dx: int, dy: int| 0 <= dx < 5 && 0 <= dy < 5 implies (#[trigger] terrain[(x + dx)
        + (y + dy) * w]).terrain_type == TerrainType::Floor by {
        crate::engine::grid::lemma_cell_index(w, x + dx, y + dy);
        crate::engine::grid::lemma_cell_index_bound(w, params.height as int, x + dx, y + dy);
    }
    assert(floor_block(terrain, w, x, y, 5));
}

/// Adds the rooms of the partition to `leaves`, left to right.
fn collect_leaves(node: &BSPNode, leaves: &mut Vec<BSPNode>)
    ensures
        final(leaves)@ == old(leaves)@ + node.leaves(),
    decreases node,
{
    match &node.children {
        None => {
            leaves.push(
                BSPNode {
                    x: node.x,
                    y: node.y,
                    width: node.width,
                    height: node.height,
                    children: None,
                },
            );
            assert(leaves@ =~= old(leaves)@ + node.leaves());
        },
        Some((child1, child2)) => {
            collect_leaves(child1, leaves);
            collect_leaves(child2, leaves);
            assert(leaves@ =~= old(leaves)@ + node.leaves());
        },
    }
}

/// The rooms of the partition, left to right.
fn get_leaves(root: &BSPNode) -> (leaves: Vec<BSPNode>)
    ensures
        leaves@ == root.leaves(),
{
    let mut leaves = Vec::new();
    collect_leaves(root, &mut leaves);
    assert(leaves@ =~= root.leaves());
    leaves
}

/// Index of the cell (`x`, `y`) of the arena.
fn idx(x: usize, y: usize, params: &TerrainGenParams) -> (i: usize)
    requires
        x + y * params.width <= usize::MAX,
    ensures
        i == x + y * params.width,
{
    assert(0 <= y * params.width) by (nonlinear_arith)
        requires
            0 <= y,
            0 <= params.width,
    ;
    x + y * params.width
}

/// Splits a room in two at `cut`: across its longer side, a room that is
/// no wider than high into a lower and an upper part, any other room into
/// a left and a right part. Both parts keep sides of at least
/// [`MIN_ROOM_WIDTH`].
pub fn split_node(node: BSPNode, cut: usize) -> (split: BSPNode)
    requires
        node.ok(),
        node.children.is_none(),
        MIN_ROOM_WIDTH <= cut,
        node.width <= node.height ==> cut < node.height - MIN_ROOM_WIDTH,
        node.width > node.height ==> cut < node.width - MIN_ROOM_WIDTH,
    ensures
        split.ok(),
        split == node.split_at(cut),
        split.children matches Some((first, second)) && first.children.is_none()
            && second.children.is_none() && first.x == node.x && first.y == node.y && (
        node.width <= node.height ==> first.width == node.width && first.height == cut && second.x
            == node.x && second.y == node.y + cut && second.width == node.width && second.height
            == node.height - cut) && (node.width > node.height ==> first.width == cut
            && first.height == node.height && second.x == node.x + cut && second.y == node.y
            && second.width == node.width - cut && second.height == node.height),
{
    let horizontal_chop = node.width <= node.height;
    let child1_width = if horizontal_chop {
        node.width
    } else {
        cut
    };
    let child2_width = if horizontal_chop {
        node.width
    } else {
        node.width - child1_width
    };
    let child1_height = if !horizontal_chop {
        node.height
    } else {
        cut
    };
    let child2_height = if !horizontal_chop {
        node.height
    } else {
        node.height - child1_height
    };
    let child1 = BSPNode {
        x: node.x,
        y: node.y,
        width: child1_width,
        height: child1_height,
        children: None,
    };
    let child2 = BSPNode {
        x: if horizontal_chop {
            node.x
        } else {
            node.x + child1_width
        },
        y: if !horizontal_chop {
            node.y
        } else {
            node.y + child1_height
        },
        width: child2_width,
        height: child2_height,
        children: None,
    };
    assert(child1.ok());
    assert(child2.ok());
    let split = BSPNode {
        x: node.x,
        y: node.y,
        width: node.width,
        height: node.height,
        children: Some((Box::new(child1), Box::new(child2))),
    };
    assert(split.ok()) by {
        assert(child1.inside(split));
        assert(child2.inside(split));
    }
    split
}

/// One round of splitting: every room that is large enough is split with the given
/// likelihood, at a random cut. What comes out is a tree that `grows_into` allows.
fn split_leaves(node: BSPNode, branch_prob: u32) -> (grown: BSPNode)
    requires
        node.ok(),
    ensures
        grown.ok(),
        grown.same_area(node),
        node.grows_into(grown, branch_prob),
        grown.depth() <= node.depth() + 1,
        branch_prob == 0 ==> grown == node,
    decreases node,
{
    let ghost whole = node;
    let BSPNode { x, y, width, height, children } = node;
    match children {
        Some((child1, child2)) => {
            let ghost before_first = *child1;
            let ghost before_second = *child2;
            let first = split_leaves(*child1, branch_prob);
            let second = split_leaves(*child2, branch_prob);
            let grown = BSPNode {
                x: x,
                y: y,
                width: width,
                height: height,
                children: Some((Box::new(first), Box::new(second))),
            };
            proof {
                assert(whole.children == Some((Box::new(before_first), Box::new(before_second))));
                assert(whole.depth() == if before_first.depth() >= before_second.depth() {
                    before_first.depth() + 1
                } else {
                    before_second.depth() + 1
                });
                assert(grown.depth() == if first.depth() >= second.depth() {
                    first.depth() + 1
                } else {
                    second.depth() + 1
                });
            }
            grown
        },
        None => {
            let leaf = BSPNode { x: x, y: y, width: width, height: height, children: None };
            if width <= MIN_ROOM_WIDTH * 2 && height <= MIN_ROOM_WIDTH * 2 {
                return leaf;
            }
            if random_between(0, 1000) >= branch_prob as usize {
                return leaf;
            }
            let cut = if width <= height {
                random_between(MIN_ROOM_WIDTH, height - MIN_ROOM_WIDTH)
            } else {
                random_between(MIN_ROOM_WIDTH, width - MIN_ROOM_WIDTH)
            };
            let grown = split_node(leaf, cut);
            proof {
                let (first, second) = grown.children.unwrap();
                assert(first.depth() == 0);
                assert(second.depth() == 0);
                assert(grown.depth() == 1);
            }
            grown
        },
    }
}

impl BSPNode {
    /// Whether the room is large enough to be split: one of its sides is
    /// longer than twice [`MIN_ROOM_WIDTH`].
    pub open spec fn can_split(self) -> bool {
        self.width > 2 * MIN_ROOM_WIDTH || self.height > 2 * MIN_ROOM_WIDTH
    }

    /// Whether the room can be cut at `cut`: the cut runs across the
    /// longer side, the height of a room that is no wider than high, and
    /// leaves at least [`MIN_ROOM_WIDTH`] on both sides of it.
    pub open spec fn cut_ok(self, cut: usize) -> bool {
        &&& MIN_ROOM_WIDTH <= cut
        &&& self.width <= self.height ==> cut < self.height - MIN_ROOM_WIDTH
        &&& self.width > self.height ==> cut < self.width - MIN_ROOM_WIDTH
    }

    /// The room split in two at `cut`: a room that is no wider than high
    /// into a lower part of height `cut` and an upper part, any other room
    /// into a left part of width `cut` and a right part.
    pub open spec fn split_at(self, cut: usize) -> BSPNode {
        let across = self.width <= self.height;
        BSPNode {
            x: self.x,
            y: self.y,
            width: self.width,
            height: self.height,
            children: Some(
                (
                    Box::new(
                        BSPNode {
                            x: self.x,
                            y: self.y,
                            width: if across {
                                self.width
                            } else {
                                cut
                            },
                            height: if across {
                                cut
                            } else {
                                self.height
                            },
                            children: None,
                        },
                    ),
                    Box::new(
                        BSPNode {
                            x: if across {
                                self.x
                            } else {
                                (self.x + cut) as usize
                            },
                            y: if across {
                                (self.y + cut) as usize
                            } else {
                                self.y
                            },
                            width: if across {
                                self.width
                            } else {
                                (self.width - cut) as usize
                            },
                            height: if across {
                                (self.height - cut) as usize
                            } else {
                                self.height
                            },
                            children: None,
                        },
                    ),
                ),
            ),
        }
    }

    /// Whether `grown` is what one round of splitting with the likelihood
    /// `branch_prob`, in thousandths, can make of the tree. A rectangle that
    /// is split stays split the same way, and the round goes on in both
    /// parts. A room that is too small to be split stays as it is. A room
    /// that is large enough stays as it is or is split at a cut it allows;
    /// it always stays where the likelihood is zero, and is always split
    /// where the likelihood is a thousand or more.
    pub open spec fn grows_into(self, grown: BSPNode, branch_prob: u32) -> bool
        decreases self,
    {
        match self.children {
            Some((first, second)) => {
                &&& grown.same_area(self)
                &&& grown.children matches Some((grown_first, grown_second))
                &&& first.grows_into(*grown_first, branch_prob)
                &&& second.grows_into(*grown_second, branch_prob)
            },
            None => {
                ||| grown == self && (!self.can_split() || branch_prob < 1000)
                ||| self.can_split() && branch_prob > 0 && exists|cut: usize|
                    self.cut_ok(cut) && grown == #[trigger] self.split_at(cut)
            },
        }
    }
}

/// Paints one kind of terrain over a rectangle of the arena.
fn paint(
    terrain: &mut Vec<TerrainInfo>,
    params: &TerrainGenParams,
    x: usize,
    y: usize,
    width: usize,
    height: usize,
    terrain_type: TerrainType,
)
    requires
        old(terrain)@.len() == params.width * params.height,
        x + width <= params.width,
        y + height <= params.height,
    ensures
        final(terrain)@ == painted(
            old(terrain)@,
            params.width as int,
            x as int,
            y as int,
            width as int,
            height as int,
            terrain_type,
        ),
{
    let ghost before = terrain@;
    let ghost w = params.width as int;
    let cells: usize = terrain.len();
    let mut i: usize = x;
    while i < x + width
        invariant
            x <= i <= x + width,
            w == params.width,
            cells == params.width * params.height,
            terrain@.len() == params.width * params.height,
            before.len() == params.width * params.height,
            x + width <= params.width,
            y + height <= params.height,
            forall|k: int|
                0 <= k < terrain@.len() ==> terrain@[k] == (if x <= k % w < i && y <= k / w < y
                    + height {
                    TerrainInfo { terrain_type: terrain_type }
                } else {
                    before[k]
                }),
        decreases x + width - i,
    {
        let mut j: usize = y;
        while j < y + height
            invariant
                x <= i < x + width,
                y <= j <= y + height,
                w == params.width,
                cells == params.width * params.height,
                terrain@.len() == params.width * params.height,
                before.len() == params.width * params.height,
                x + width <= params.width,
                y + height <= params.height,
                forall|k: int|
                    0 <= k < terrain@.len() ==> terrain@[k] == (if y <= k / w < y + height && (x
                        <= k % w < i || (k % w == i && k / w < j)) {
                        TerrainInfo { terrain_type: terrain_type }
                    } else {
                        before[k]
                    }),
            decreases y + height - j,
        {
            proof {
                crate::engine::grid::lemma_cell_index(w, i as int, j as int);
                crate::engine::grid::lemma_cell_index_bound(
                    w,
                    params.height as int,
                    i as int,
                    j as int,
                );
            }
            let at = idx(i, j, params);
            let ghost prev = terrain@;
            terrain.set(at, TerrainInfo { terrain_type: terrain_type });
            proof {
                assert forall|k: int| 0 <= k < terrain@.len() implies terrain@[k] == (if y <= k / w
                    < y + height && (x <= k % w < i || (k % w == i && k / w < j + 1)) {
                    TerrainInfo { terrain_type: terrain_type }
                } else {
                    before[k]
                }) by {
                    crate::engine::grid::lemma_index_cell(w, params.height as int, k);
                    if k != at {
                        assert(terrain@[k] == prev[k]);
                        assert(!(k % w == i && k / w == j));
                    }
                }
            }
            j += 1;
        }
        i += 1;
    }
    proof {
        assert forall|k: int| 0 <= k < terrain@.len() implies terrain@[k] == painted(
            before,
            w,
            x as int,
            y as int,
            width as int,
            height as int,
            terrain_type,
        )[k] by {
            assert(terrain@[k] == (if x <= k % w < i && y <= k / w < y + height {
                TerrainInfo { terrain_type: terrain_type }
            } else {
                before[k]
            }));
        }
        assert(terrain@ =~= painted(
            before,
            w,
            x as int,
            y as int,
            width as int,
            height as int,
            terrain_type,
        ));
    }
}

/// Carves a room into the terrain, with the given doors.
pub fn carve_room(
    terrain: &mut Vec<TerrainInfo>,
    params: &TerrainGenParams,
    room: &BSPNode,
    doors: Doors,
)
    requires
        old(terrain)@.len() == params.width * params.height,
        room.ok(),
        room.x + room.width <= params.width,
        room.y + room.height <= params.height,
        room.doors_ok(doors),
    ensures
        final(terrain)@ == carved(old(terrain)@, params.width as int, *room, doors),
{
    paint(terrain, params, room.x, room.y, room.width - 1, room.height - 1, TerrainType::Floor);
    paint(terrain, params, room.x, room.y + room.height - 1, room.width, 1, TerrainType::Wall);
    paint(terrain, params, room.x + room.width - 1, room.y, 1, room.height, TerrainType::Wall);
    paint(
        terrain,
        params,
        room.x + doors.door_offset_horizontal,
        room.y + room.height - 1,
        doors.door_width_horizontal,
        1,
        TerrainType::Floor,
    );
    paint(
        terrain,
        params,
        room.x + room.width - 1,
        room.y + doors.door_offset_vertical,
        1,
        doors.door_width_vertical,
        TerrainType::Floor,
    );
}

fn smaller(a: usize, b: usize) -> (m: usize)
    ensures
        m == if a <= b {
            a
        } else {
            b
        },
{
    if a <= b {
        a
    } else {
        b
    }
}

/// Draws the doors of a room at random.
fn draw_doors(room: &BSPNode) -> (doors: Doors)
    requires
        room.ok(),
    ensures
        room.doors_ok(doors),
{
    let door_width_horizontal = random_between(MIN_WIDTH, smaller(room.width - 1, MIN_WIDTH * 2));
    let door_offset_horizontal = random_between(0, room.width - door_width_horizontal);
    let door_width_vertical = random_between(MIN_WIDTH, smaller(room.height - 1, MIN_WIDTH * 2));
    let door_offset_vertical = random_between(0, room.height - door_width_vertical);
    Doors {
        door_width_horizontal,
        door_offset_horizontal,
        door_width_vertical,
        door_offset_vertical,
    }
}

/// Generates an arena by binary space partition: the arena is split into
/// rooms at random, round by round, and every room is carved into the
/// terrain with a random door in its bottom wall and in its right wall.
fn binary_space_partition(params: &TerrainGenParams) -> (terrain: Vec<TerrainInfo>)
    requires
        params.width >= MIN_ROOM_WIDTH,
        params.height >= MIN_ROOM_WIDTH,
        params.width * params.height <= usize::MAX,
    ensures
        terrain@.len() == params.width * params.height,
        exists|root: BSPNode, doors: Seq<Doors>| #[trigger]
            generated_from(params, terrain@, root, doors),
{
    let mut root = BSPNode {
        x: 0,
        y: 0,
        width: params.width,
        height: params.height,
        children: None,
    };
    let mut round: usize = 0;
    while round < params.branch_depth
        invariant
            round <= params.branch_depth,
            root.ok(),
            root.x == 0,
            root.y == 0,
            root.width == params.width,
            root.height == params.height,
            root.depth() <= round,
            params.branch_prob == 0 ==> root.children.is_none(),
        decreases params.branch_depth - round,
    {
        root = split_leaves(root, params.branch_prob);
        round += 1;
    }
    let cells: usize = params.width * params.height;
    let mut terrain: Vec<TerrainInfo> = Vec::new();
    let mut n: usize = 0;
    while n < cells
        invariant
            n <= cells,
            terrain@.len() == n,
            forall|k: int|
                0 <= k < n ==> (#[trigger] terrain@[k]).terrain_type == TerrainType::Empty,
        decreases cells - n,
    {
        terrain.push(TerrainInfo { terrain_type: TerrainType::Empty });
        n += 1;
    }
    assert(terrain@ =~= blank(cells as nat));
    let leaves = get_leaves(&root);
    proof {
        lemma_leaves_inside(root);
    }
    let ghost mut doors: Seq<Doors> = Seq::empty();
    let mut k: usize = 0;
    assert(leaves@.take(0) =~= Seq::<BSPNode>::empty());
    while k < leaves.len()
        invariant
            k <= leaves.len(),
            cells == params.width * params.height,
            leaves@ == root.leaves(),
            root.x == 0,
            root.y == 0,
            root.width == params.width,
            root.height == params.height,
            forall|i: int|
                0 <= i < root.leaves().len() ==> {
                    &&& (#[trigger] root.leaves()[i]).inside(root)
                    &&& root.leaves()[i].ok()
                },
            terrain@.len() == cells,
            doors.len() == k,
            forall|i: int| 0 <= i < k ==> root.leaves()[i].doors_ok(#[trigger] doors[i]),
            terrain@ == carved_all(
                blank(cells as nat),
                params.width as int,
                leaves@.take(k as int),
                doors,
            ),
        decreases leaves.len() - k,
    {
        let room = &leaves[k];
        assert(room.inside(root) && room.ok());
        let drawn = draw_doors(room);
        carve_room(&mut terrain, params, room, drawn);
        proof {
            let ghost before = doors;
            doors = doors.push(drawn);
            assert(doors.drop_last() =~= before);
            assert(leaves@.take(k + 1).drop_last() =~= leaves@.take(k as int));
            assert(leaves@.take(k + 1).last() == *room);
        }
        k += 1;
    }
    proof {
        assert(leaves@.take(k as int) =~= leaves@);
        assert(generated_from(params, terrain@, root, doors));
    }
    terrain
}

/// Generates the terrain of an arena of `params.width` by `params.height`
/// cells, row by row. Neither side of the arena is shorter than
/// [`MIN_ROOM_WIDTH`].
pub fn generate_terrain(params: &TerrainGenParams) -> (terrain: Vec<TerrainInfo>)
    requires
        params.width >= MIN_ROOM_WIDTH,
        params.height >= MIN_ROOM_WIDTH,
        params.width * params.height <= usize::MAX,
    ensures
        terrain@.len() == params.width * params.height,
        exists|root: BSPNode, doors: Seq<Doors>| #[trigger]
            generated_from(params, terrain@, root, doors),
{
    binary_space_partition(params)
}

} // verus!
