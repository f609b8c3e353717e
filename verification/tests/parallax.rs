use tango_driver::buildings::building_layers;
use tango_driver::parallax::parallax_layer_indices;
use tango_driver::road::{layout_texture, texture_path, RoadTexture};
use tango_driver::tilemap::PavementLayout;

#[test]
fn layers_keep_their_levels() {
    let parallax = vec![Some(0), None, Some(2), Some(1)];
    let layers = parallax_layer_indices(&parallax, 4, false);
    assert_eq!(layers, vec![(0, 0), (2, 2), (1, 3)]);
}

#[test]
fn inverted_atlases_count_from_the_top() {
    let parallax = vec![Some(0), Some(1), Some(2)];
    let layers = parallax_layer_indices(&parallax, 4, true);
    assert_eq!(layers, vec![(3, 0), (2, 1), (1, 2)]);
}

#[test]
fn an_atlas_with_no_layers() {
    let parallax: Vec<Option<usize>> = vec![None, None];
    assert_eq!(parallax_layer_indices(&parallax, 1, true), Vec::new());
}

#[test]
fn the_building_stacks_its_rows() {
    let layers = building_layers();
    assert_eq!(layers.len(), 67);
    // Bottom of the stack: the ground floor uses the atlas's last row.
    assert_eq!(layers[0], (11, 0));
    assert_eq!(layers[1], (10, 1));
    // Top of the stack: the roof ridge uses the atlas's first row.
    assert_eq!(layers[66], (0, 66));
}

#[test]
fn road_textures_have_their_atlas_names() {
    assert_eq!(RoadTexture::Pavement.texture_name(), "pavement");
    assert_eq!(RoadTexture::PavementTurn.texture_name(), "pavement_turn");
    assert_eq!(RoadTexture::PavementT.texture_name(), "pavement_t");
    assert_eq!(RoadTexture::PavementCross.texture_name(), "pavement_cross");
}

#[test]
fn each_pavement_pattern_picks_its_texture() {
    assert_eq!(layout_texture(PavementLayout::Cross), RoadTexture::PavementCross);
    assert_eq!(layout_texture(PavementLayout::TJunction), RoadTexture::PavementT);
    assert_eq!(layout_texture(PavementLayout::Straight), RoadTexture::Pavement);
    assert_eq!(layout_texture(PavementLayout::Turn), RoadTexture::PavementTurn);
}

#[test]
fn texture_paths_nest_the_name() {
    assert_eq!(texture_path("pavement"), "pavement/pavement.png");
    assert_eq!(texture_path("car"), "car/car.png");
}
