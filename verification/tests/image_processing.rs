use splatoon3_ghost_drawer::image_processing::ImageProcessingService;

#[test]
fn sobel_on_flat_and_edge_patches() {
    assert_eq!(ImageProcessingService::sobel_edge_magnitude(&[[10, 10, 10], [10, 10, 10], [10, 10, 10]]), 0);
    // a vertical edge: gx = -1020, clamped to 255
    assert_eq!(ImageProcessingService::sobel_edge_magnitude(&[[255, 0, 0], [255, 0, 0], [255, 0, 0]]), 255);
    // gx = 2*3 + 3 + 3 = 12, gy = 0: length 12
    assert_eq!(ImageProcessingService::sobel_edge_magnitude(&[[0, 0, 3], [0, 0, 3], [0, 0, 3]]), 12);
    // gx = 1, gy = 5: sqrt(26) = 5.09 -> 5
    assert_eq!(ImageProcessingService::sobel_edge_magnitude(&[[0, 0, 1], [0, 0, 0], [1, 2, 1]]), 5);
}

#[test]
fn sobel_rounds_down() {
    // gx = 1, gy = 1: length sqrt(2) -> 1
    assert_eq!(ImageProcessingService::sobel_edge_magnitude(&[[0, 0, 0], [0, 0, 0], [0, 0, 1]]), 1);
    // gx = 4, gy = 4: sqrt(32) = 5.65 -> 5
    assert_eq!(ImageProcessingService::sobel_edge_magnitude(&[[0, 0, 0], [0, 0, 0], [0, 0, 4]]), 5);
}

#[test]
fn median_of_neighbourhoods() {
    assert_eq!(ImageProcessingService::median_filter(&[3, 1, 2]), 2);
    assert_eq!(ImageProcessingService::median_filter(&[9]), 9);
    // sorted [1, 2, 3, 4]: index 2
    assert_eq!(ImageProcessingService::median_filter(&[4, 1, 3, 2]), 3);
    assert_eq!(ImageProcessingService::median_filter(&[0, 255, 255, 0, 255]), 255);
    assert_eq!(ImageProcessingService::median_filter(&[7, 7, 7, 1, 200, 7, 7, 9, 0]), 7);
}
