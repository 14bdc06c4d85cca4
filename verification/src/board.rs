use vstd::prelude::*;

use crate::assets::MappingID;

verus! {

/// The number of tiles along each side of the board.
pub const BOARD_SIZE: usize = 16;

/// A kind of ground that can lie on a tile spot.
pub trait Tile {
    /// The texture that the tile states it is drawn in. An impl that keeps the default,
    /// `None`, makes no claim about its texture.
    open spec fn known_texture(&self) -> Option<MappingID> {
        None
    }

    fn get_texture_map_id(&self) -> (r: &MappingID)
        ensures
            self.known_texture() matches Some(t) ==> *r == t,
    ;
}

/// Holds a value in a field of a generic type, so that a boxed tile is stored exactly as it
/// was handed over, with no trait-object coercion on the way into the field.
struct Held<B> {
    item: B,
}

/// A place on the board and the tile that lies there.
pub struct TileSpot {
    tile: Held<Box<dyn Tile>>,
}

impl TileSpot {
    /// The tile that lies on the spot.
    pub closed spec fn tile(&self) -> &Box<dyn Tile> {
        &self.tile.item
    }

    /// A spot on which `tile` lies.
    pub fn new(tile: Box<dyn Tile>) -> (r: TileSpot)
        ensures
            *r.tile() == tile,
    {
        let held = Held { item: tile };
        TileSpot { tile: held }
    }

    /// The texture of the tile that lies on the spot.
    pub fn get_texture_id(&self) -> (r: &MappingID)
        ensures
            self.tile().known_texture() matches Some(t) ==> *r == t,
    {
        self.tile.item.get_texture_map_id()
    }
}

/// A square board of tile spots; a spot may be hovered over.
pub struct Board {
    tiles: Vec<Vec<TileSpot>>,
    hovered: Option<(usize, usize)>,
}

/// The position lies on the board.
pub open spec fn on_board(pos: (usize, usize)) -> bool {
    pos.0 < BOARD_SIZE && pos.1 < BOARD_SIZE
}

impl Board {
    /// The board has `BOARD_SIZE` columns of `BOARD_SIZE` spots each.
    pub closed spec fn wf(&self) -> bool {
        &&& self.tiles@.len() == BOARD_SIZE
        &&& forall|i: int| 0 <= i < BOARD_SIZE ==> (#[trigger] self.tiles@[i])@.len() == BOARD_SIZE
    }

    /// The spot at the position.
    pub closed spec fn spot(&self, pos: (usize, usize)) -> TileSpot {
        self.tiles@[pos.0 as int]@[pos.1 as int]
    }

    pub closed spec fn spec_hovered(&self) -> Option<(usize, usize)> {
        self.hovered
    }

    /// A board whose every spot is one that `make_spot` made, each by a call of its own.
    pub fn new<F: Fn() -> TileSpot>(make_spot: F) -> (r: Board)
        requires
            call_requires(make_spot, ()),
        ensures
            r.wf(),
            r.spec_hovered() is None,
            forall|p: (usize, usize)| on_board(p) ==> call_ensures(make_spot, (), #[trigger] r.spot(p)),
    {
        let mut tiles: Vec<Vec<TileSpot>> = Vec::new();
        for x in 0..BOARD_SIZE
            invariant
                call_requires(make_spot, ()),
                tiles@.len() == x,
                forall|i: int| 0 <= i < x ==> (#[trigger] tiles@[i])@.len() == BOARD_SIZE,
                forall|i: int, j: int| 0 <= i < x && 0 <= j < BOARD_SIZE
                    ==> call_ensures(make_spot, (), #[trigger] tiles@[i]@[j]),
        {
            let mut col: Vec<TileSpot> = Vec::new();
            for y in 0..BOARD_SIZE
                invariant
                    call_requires(make_spot, ()),
                    col@.len() == y,
                    forall|j: int| 0 <= j < y ==> call_ensures(make_spot, (), #[trigger] col@[j]),
            {
                col.push(make_spot());
            }
            tiles.push(col);
        }
        let board = Board { tiles, hovered: None };
        assert forall|p: (usize, usize)| on_board(p) implies call_ensures(make_spot, (), #[trigger] board.spot(p)) by {
            assert(board.tiles@[p.0 as int]@[p.1 as int] == board.spot(p));
        }
        board
    }

    pub fn get_width(&self) -> (r: usize)
        ensures
            r == BOARD_SIZE,
    {
        BOARD_SIZE
    }

    pub fn get_height(&self) -> (r: usize)
        ensures
            r == BOARD_SIZE,
    {
        BOARD_SIZE
    }

    /// The spot at the position, if it lies on the board, to be changed in place.
    pub fn get_tile_spot_by_idx(&mut self, at_pos: (usize, usize)) -> (r: Option<&mut TileSpot>)
        requires
            old(self).wf(),
        ensures
            r is Some <==> on_board(at_pos),
            r is None ==> *final(self) == *old(self),
            r matches Some(spot) ==> {
                &&& *spot == old(self).spot(at_pos)
                &&& final(self).wf()
                &&& final(self).spot(at_pos) == *final(spot)
                &&& forall|p: (usize, usize)| on_board(p) && p != at_pos
                    ==> #[trigger] final(self).spot(p) == old(self).spot(p)
                &&& final(self).spec_hovered() == old(self).spec_hovered()
            },
    {
        if at_pos.0 > BOARD_SIZE - 1 || at_pos.1 > BOARD_SIZE - 1 {
            None
        } else {
            let col = &mut self.tiles[at_pos.0];
            Some(&mut col[at_pos.1])
        }
    }

    /// The tile position, given as whole tiles from the board's corner, if it lies on the board.
    pub fn to_tile_idx(&self, idx: (usize, usize)) -> (r: Option<(usize, usize)>)
        ensures
            r == (if on_board(idx) { Some(idx) } else { None::<(usize, usize)> }),
    {
        if idx.0 > BOARD_SIZE - 1 || idx.1 > BOARD_SIZE - 1 {
            None
        } else {
            Some(idx)
        }
    }

    /// Marks the spot as hovered over.
    pub fn hover(&mut self, hover_idx: (usize, usize))
        ensures
            final(self).spec_hovered() == Some(hover_idx),
            forall|p: (usize, usize)| final(self).spot(p) == old(self).spot(p),
            old(self).wf() ==> final(self).wf(),
    {
        self.hovered = Some(hover_idx);
    }

    pub fn get_hovered(&self) -> (r: Option<(usize, usize)>)
        ensures
            r == self.spec_hovered(),
    {
        self.hovered
    }
}

} // verus!
