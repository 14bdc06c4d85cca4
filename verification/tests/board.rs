use westiny::assets::MappingID;
use westiny::board::{Board, Tile, TileSpot, BOARD_SIZE};

struct BarrenLand;

const BARREN: MappingID = MappingID { module: "base", entity: "barren" };

impl Tile for BarrenLand {
    fn get_texture_map_id(&self) -> &MappingID {
        &BARREN
    }
}

fn barren() -> Box<dyn Tile> {
    Box::new(BarrenLand)
}

fn barren_spot() -> TileSpot {
    TileSpot::new(barren())
}

#[test]
fn board_is_square_and_filled() {
    let mut board = Board::new(barren_spot);
    assert_eq!(board.get_width(), BOARD_SIZE);
    assert_eq!(board.get_height(), 16);
    let spot = board.get_tile_spot_by_idx((15, 0)).expect("spot on the board");
    assert_eq!(spot.get_texture_id().text(), "base:barren");
}

#[test]
fn positions_off_the_board_have_no_spot() {
    let mut board = Board::new(barren_spot);
    assert!(board.get_tile_spot_by_idx((16, 0)).is_none());
    assert!(board.get_tile_spot_by_idx((0, 16)).is_none());
    assert!(board.get_tile_spot_by_idx((15, 15)).is_some());
    assert_eq!(board.to_tile_idx((3, 4)), Some((3, 4)));
    assert_eq!(board.to_tile_idx((3, 40)), None);
}

#[test]
fn hovering_marks_the_spot() {
    let mut board = Board::new(barren_spot);
    assert_eq!(board.get_hovered(), None);
    board.hover((2, 5));
    assert_eq!(board.get_hovered(), Some((2, 5)));
    let spot = TileSpot::new(barren());
    assert_eq!(*spot.get_texture_id(), BARREN);
}
