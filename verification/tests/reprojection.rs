use submaptive::engine::{resample_pixel, ProjectedMap};
use submaptive::equirect::{Equirectangular, ProjectionError};
use submaptive::geo::{Point, LAT_LIMIT, LON_LIMIT};
use submaptive::projection::{ProjectionData, ProjectionKind};
use submaptive::raster::{Pixel, Raster};

fn equirect(central_long: i64, true_scale_lat: i64) -> ProjectionData {
    ProjectionData::Equirectangular(
        Equirectangular::new()
            .central_long(central_long)
            .true_scale_lat(true_scale_lat)
            .build()
            .unwrap(),
    )
}

fn px(r: u8, g: u8, b: u8, a: u8) -> Pixel {
    Pixel { r, g, b, a }
}

fn uniform_raster(width: u32, height: u32, p: Pixel) -> Raster {
    Raster::new(width, height, vec![p; (width * height) as usize]).unwrap()
}

#[test]
fn round_trip_is_exact_at_default_parameters() {
    let p = equirect(0, 0);
    for &(lat, lon) in &[
        (0i64, 0i64),
        (12_500_000, 45_250_000),
        (-89_000_000, -179_999_999),
        (90_000_000, 179_999_999),
        (-45_000_000, 123_456_789 % 180_000_000),
    ] {
        let point = Point::new(lat, lon).unwrap();
        let planar = p.project(&point);
        let back = p.invert(planar);
        assert_eq!(back.latitude, lat);
        assert_eq!(back.longitude, lon);
    }
}

#[test]
fn round_trip_maps_the_antimeridian_to_one_seam() {
    let p = equirect(0, 0);
    let point = Point::new(0, LON_LIMIT).unwrap();
    let planar = p.project(&point);
    let back = p.invert(planar);
    assert_eq!(back.latitude, 0);
    assert_eq!(back.longitude, -LON_LIMIT);
}

#[test]
fn build_rejects_degenerate_true_scale_latitude() {
    assert_eq!(
        Equirectangular::new().true_scale_lat(LAT_LIMIT).build(),
        Err(ProjectionError::InvalidParameter)
    );
    assert_eq!(
        Equirectangular::new().true_scale_lat(-LAT_LIMIT).build(),
        Err(ProjectionError::InvalidParameter)
    );
}

#[test]
fn build_rejects_out_of_range_central_longitude() {
    assert_eq!(
        Equirectangular::new().central_long(LON_LIMIT + 1).build(),
        Err(ProjectionError::InvalidParameter)
    );
    assert_eq!(
        Equirectangular::new().central_long(-LON_LIMIT - 1).build(),
        Err(ProjectionError::InvalidParameter)
    );
}

#[test]
fn build_accepts_the_documented_domain_edges() {
    assert!(Equirectangular::new().central_long(LON_LIMIT).build().is_ok());
    assert!(Equirectangular::new().central_long(-LON_LIMIT).build().is_ok());
    assert!(Equirectangular::new().true_scale_lat(LAT_LIMIT - 1).build().is_ok());
    assert!(Equirectangular::new().true_scale_lat(-LAT_LIMIT + 1).build().is_ok());
}

#[test]
fn builder_keeps_the_parameters() {
    let e = Equirectangular::new()
        .central_long(30_000_000)
        .true_scale_lat(-15_000_000)
        .build()
        .unwrap();
    assert_eq!(e.central_long(), 30_000_000);
    assert_eq!(e.true_scale_lat(), -15_000_000);
}

#[test]
fn dimensions_at_the_equator_cover_the_full_globe() {
    let d = equirect(0, 0).dimensions();
    assert_eq!(d.width, 360);
    assert_eq!(d.height, 180);
}

#[test]
fn dimensions_width_halves_at_sixty_degrees() {
    // cos 60 degrees is exactly 1/2 under the rational cosine formula.
    let d = equirect(0, 60_000_000).dimensions();
    assert_eq!(d.width, 180);
    assert_eq!(d.height, 180);
}

#[test]
fn dimensions_width_at_thirty_degrees_matches_the_formula() {
    // cos 30 degrees scales to 864864 of 1000000; 360 * 0.864864
    // rounded up is 312.
    let d = equirect(0, 30_000_000).dimensions();
    assert_eq!(d.width, 312);
}

#[test]
fn dimensions_width_shrinks_to_one_at_the_domain_edge() {
    let d = equirect(0, LAT_LIMIT - 1).dimensions();
    assert_eq!(d.width, 1);
    assert_eq!(d.height, 180);
}

#[test]
fn dimensions_width_is_monotone_in_the_true_scale_latitude() {
    let mut last = u32::MAX;
    for &ts in &[0i64, 10_000_000, 30_000_000, 60_000_000, 85_000_000, 89_999_999] {
        let w = equirect(0, ts).dimensions().width;
        assert!(w <= last);
        assert!(w >= 1);
        let w_neg = equirect(0, -ts).dimensions().width;
        assert_eq!(w, w_neg);
        last = w;
    }
}

#[test]
fn projection_kind_all_lists_every_kind() {
    assert_eq!(ProjectionKind::all(), vec![ProjectionKind::Equirectangular]);
}

#[test]
fn projection_kind_name_and_default() {
    let kind = ProjectionKind::Equirectangular;
    assert_eq!(kind.name(), "Equirectangular");
    let data = kind.default_projection_data();
    assert_eq!(data.kind(), ProjectionKind::Equirectangular);
    let ProjectionData::Equirectangular(e) = data;
    assert_eq!(e.central_long(), 0);
    assert_eq!(e.true_scale_lat(), 0);
}

#[test]
fn point_new_rejects_out_of_range_coordinates() {
    assert!(Point::new(LAT_LIMIT + 1, 0).is_none());
    assert!(Point::new(0, LON_LIMIT + 1).is_none());
    assert!(Point::new(-LAT_LIMIT, -LON_LIMIT).is_some());
}

#[test]
fn raster_new_rejects_a_mismatched_buffer() {
    assert!(Raster::new(2, 2, vec![px(0, 0, 0, 255); 3]).is_none());
    assert!(Raster::new(2, 2, vec![px(0, 0, 0, 255); 4]).is_some());
}

#[test]
fn bilinear_sample_at_a_whole_pixel_is_exact() {
    let r = Raster::new(
        2,
        2,
        vec![px(10, 0, 0, 255), px(20, 0, 0, 255), px(30, 0, 0, 255), px(40, 0, 0, 255)],
    )
    .unwrap();
    assert_eq!(r.sample_bilinear(1, 0, 0, 0), px(20, 0, 0, 255));
    assert_eq!(r.sample_bilinear(0, 0, 1, 0), px(30, 0, 0, 255));
}

#[test]
fn bilinear_sample_at_the_midpoint_averages_the_four_neighbors() {
    let r = Raster::new(
        2,
        2,
        vec![px(0, 0, 0, 255), px(100, 0, 0, 255), px(200, 0, 0, 255), px(40, 0, 0, 255)],
    )
    .unwrap();
    let s = r.sample_bilinear(0, 500_000, 0, 500_000);
    assert_eq!(s.r, 85);
    assert_eq!(s.a, 255);
}

#[test]
fn bilinear_sample_wraps_across_the_width_bound() {
    let r = Raster::new(
        4,
        1,
        vec![px(10, 0, 0, 255), px(20, 0, 0, 255), px(30, 0, 0, 255), px(40, 0, 0, 255)],
    )
    .unwrap();
    // the right-hand neighbor of the last column is column 0
    let s = r.sample_bilinear(3, 500_000, 0, 0);
    assert_eq!(s.r, 25);
}

#[test]
fn bilinear_sample_outside_the_raster_is_transparent() {
    let r = uniform_raster(4, 4, px(255, 255, 255, 255));
    assert_eq!(r.sample_bilinear(4, 0, 0, 0), px(0, 0, 0, 0));
    assert_eq!(r.sample_bilinear(-1, 0, 0, 0), px(0, 0, 0, 0));
    assert_eq!(r.sample_bilinear(0, 0, 4, 0), px(0, 0, 0, 0));
    assert_eq!(r.sample_bilinear(0, 0, -1, 0), px(0, 0, 0, 0));
}

#[test]
fn identity_conversion_reproduces_the_source_exactly() {
    let mut pixels = Vec::new();
    for y in 0..180u32 {
        for x in 0..360u32 {
            pixels.push(px((x % 256) as u8, (y % 256) as u8, ((x + y) % 256) as u8, 255));
        }
    }
    let source = Raster::new(360, 180, pixels).unwrap();
    let p = equirect(45_000_000, 0);
    let out = ProjectedMap::new(source.clone(), p).convert_to(p).to_image();
    assert_eq!(out.width, 360);
    assert_eq!(out.height, 180);
    assert_eq!(out.pixels, source.pixels);
}

#[test]
fn conversion_places_a_known_sample_where_the_target_addresses_it() {
    // a 360 x 180 plate-carree source with one red pixel standing at
    // latitude 0, longitude 0; a target recentered on longitude 90
    // must show it a quarter turn to the left.
    let red = px(255, 0, 0, 255);
    let mut pixels = vec![px(0, 0, 0, 0); 360 * 180];
    pixels[90 * 360 + 180] = red;
    let source = Raster::new(360, 180, pixels).unwrap();
    let out = ProjectedMap::new(source, equirect(0, 0))
        .convert_to(equirect(90_000_000, 0))
        .to_image();
    assert_eq!(out.pixels[90 * 360 + 90], red);
}

#[test]
fn conversion_is_seamless_across_the_antimeridian() {
    // a source whose red channel varies by at most 1 between any two
    // horizontally adjacent columns, the antimeridian included; after
    // recentering on longitude 180 the source seam stands mid-image,
    // and the output must still vary by at most 1 per column.
    let mut pixels = Vec::new();
    for _y in 0..180u32 {
        for x in 0..360u32 {
            let v = if x < 180 { x } else { 359 - x };
            pixels.push(px(v as u8, 0, 0, 255));
        }
    }
    let source = Raster::new(360, 180, pixels).unwrap();
    let out = ProjectedMap::new(source, equirect(0, 0))
        .convert_to(equirect(180_000_000, 0))
        .to_image();
    for x in 0..360usize {
        let here = out.pixels[90 * 360 + x].r as i32;
        let right = out.pixels[90 * 360 + (x + 1) % 360].r as i32;
        assert!((here - right).abs() <= 1, "jump at column {}", x);
    }
}

#[test]
fn conversion_into_a_narrower_target_keeps_its_dimensions() {
    let source = uniform_raster(360, 180, px(9, 9, 9, 255));
    let out = ProjectedMap::new(source, equirect(0, 0))
        .convert_to(equirect(0, 60_000_000))
        .to_image();
    assert_eq!(out.width, 180);
    assert_eq!(out.height, 180);
}

#[test]
fn conversion_scales_by_the_source_rasters_own_size() {
    // a raster at 10 degrees per pixel still covers the whole planar
    // extent: every output sample lands inside it and none degrades.
    let source = uniform_raster(36, 18, px(7, 8, 9, 255));
    let out = ProjectedMap::new(source, equirect(0, 0)).convert_to(equirect(0, 0)).to_image();
    assert_eq!(out.width, 360);
    assert_eq!(out.height, 180);
    assert!(out.pixels.iter().all(|&q| q == px(7, 8, 9, 255)));
}

#[test]
fn resample_pixel_matches_the_whole_conversion() {
    let mut pixels = vec![px(0, 0, 0, 0); 360 * 180];
    pixels[40 * 360 + 77] = px(1, 2, 3, 4);
    let source = Raster::new(360, 180, pixels).unwrap();
    let sp = equirect(0, 0);
    let tp = equirect(-30_000_000, 0);
    let out = ProjectedMap::new(source.clone(), sp).convert_to(tp).to_image();
    for &(x, y) in &[(0u32, 0u32), (77, 40), (180, 90), (359, 179)] {
        assert_eq!(
            resample_pixel(&source, &sp, &tp, x, y),
            out.pixels[(y * 360 + x) as usize]
        );
    }
}
