use cam_manager::filter_graph::{filter_complex, synthesize, FilterGraph, Geometry, Stage};

fn count_scaled(graph: &FilterGraph) -> usize {
    graph.stages.iter().filter(|s| matches!(s, Stage::Scale { .. })).count()
}

fn count_fillers(graph: &FilterGraph) -> usize {
    graph.stages.iter().filter(|s| matches!(s, Stage::Filler { .. })).count()
}

#[test]
fn two_by_two_with_three_sources() {
    let graph = synthesize(Geometry::standard(2, 2), 3);
    assert_eq!(count_scaled(&graph), 3);
    assert_eq!(count_fillers(&graph), 1);
    assert_eq!(
        graph.stages,
        vec![
            Stage::Scale { input: 0 },
            Stage::Scale { input: 1 },
            Stage::Scale { input: 2 },
            Stage::Filler { cell: 3 },
        ]
    );
    assert_eq!(graph.compositor, Some(vec![(0, 0), (640, 0), (0, 360), (640, 360)]));
    assert_eq!(
        graph.render(),
        "[0:v]scale=640:360,setpts=PTS-STARTPTS[v0];\
         [1:v]scale=640:360,setpts=PTS-STARTPTS[v1];\
         [2:v]scale=640:360,setpts=PTS-STARTPTS[v2];\
         color=black:s=640x360:r=1[v3];\
         [v0][v1][v2][v3]xstack=inputs=4:layout=0_0|640_0|0_360|640_360:fill=black[out]"
    );
    assert_eq!(graph.output_tap(), "[out]");
}

#[test]
fn single_cell_has_no_compositing_stage() {
    for sources in [0usize, 1] {
        let graph = synthesize(Geometry::standard(1, 1), sources);
        assert_eq!(graph.compositor, None);
        assert_eq!(graph.stages, vec![Stage::Direct]);
        assert_eq!(graph.render(), "[0:v]scale=640:360,setpts=PTS-STARTPTS[out]");
    }
}

#[test]
fn every_cell_is_fed_for_every_number_of_sources() {
    for cols in 1u32..5 {
        for rows in 1u32..5 {
            let cells = (cols * rows) as usize;
            if cells < 2 {
                continue;
            }
            for sources in 0..=cells {
                let graph = synthesize(Geometry::standard(cols, rows), sources);
                assert_eq!(count_scaled(&graph), sources);
                assert_eq!(count_fillers(&graph), cells - sources);
                assert_eq!(graph.compositor.as_ref().map(|o| o.len()), Some(cells));
            }
        }
    }
}

#[test]
fn offsets_go_row_by_row_and_never_repeat() {
    let geometry = Geometry { cols: 3, rows: 2, cell_w: 100, cell_h: 50 };
    let graph = synthesize(geometry, 6);
    let offsets = graph.compositor.clone().unwrap();
    assert_eq!(offsets, vec![(0, 0), (100, 0), (200, 0), (0, 50), (100, 50), (200, 50)]);
    for r in 0..2u64 {
        for c in 0..3u64 {
            assert_eq!(offsets[(r * 3 + c) as usize], (c * 100, r * 50));
        }
    }
    for i in 0..offsets.len() {
        for j in 0..offsets.len() {
            if i != j {
                assert_ne!(offsets[i], offsets[j]);
            }
        }
    }
}

#[test]
fn offsets_do_not_wrap_for_large_cells() {
    let geometry = Geometry { cols: 2, rows: 2, cell_w: 4294967295, cell_h: 4294967295 };
    let graph = synthesize(geometry, 0);
    assert_eq!(
        graph.compositor,
        Some(vec![(0, 0), (4294967295, 0), (0, 4294967295), (4294967295, 4294967295)])
    );
}

#[test]
fn more_sources_than_cells_are_all_scaled() {
    let graph = synthesize(Geometry::standard(2, 1), 3);
    assert_eq!(count_scaled(&graph), 3);
    assert_eq!(count_fillers(&graph), 0);
    assert_eq!(
        graph.render(),
        "[0:v]scale=640:360,setpts=PTS-STARTPTS[v0];\
         [1:v]scale=640:360,setpts=PTS-STARTPTS[v1];\
         [2:v]scale=640:360,setpts=PTS-STARTPTS[v2];\
         [v0][v1]xstack=inputs=2:layout=0_0|640_0:fill=black[out]"
    );
}

#[test]
fn filter_complex_gives_expression_and_tap() {
    let (expression, tap) = filter_complex(2, 1, 1);
    assert_eq!(
        expression,
        "[0:v]scale=640:360,setpts=PTS-STARTPTS[v0];\
         color=black:s=640x360:r=1[v1];\
         [v0][v1]xstack=inputs=2:layout=0_0|640_0:fill=black[out]"
    );
    assert_eq!(tap, "[out]");
}
