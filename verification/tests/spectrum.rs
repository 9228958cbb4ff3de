use lle_gui::spectrum::{
    centered_freqs, fft_shift, largest_power_of_two_at_most, recent_chunk_ranges, rf_cpu_window,
    rf_gpu_window, transpose_history,
};

#[test]
fn fft_shift_even_and_odd() {
    assert_eq!(fft_shift(&[0, 1, 2, 3]), vec![2, 3, 0, 1]);
    assert_eq!(fft_shift(&[0, 1, 2, 3, 4]), vec![3, 4, 0, 1, 2]);
    assert_eq!(fft_shift::<u8>(&[]), Vec::<u8>::new());
    assert_eq!(fft_shift(&[7]), vec![7]);
}

#[test]
fn fft_shift_of_complex_pairs() {
    let data = [(1.0f64, 0.0f64), (2.0, 0.5), (3.0, -1.0)];
    assert_eq!(fft_shift(&data), vec![(3.0, -1.0), (1.0, 0.0), (2.0, 0.5)]);
}

#[test]
fn powers_of_two() {
    assert_eq!(largest_power_of_two_at_most(1), 1);
    assert_eq!(largest_power_of_two_at_most(2), 2);
    assert_eq!(largest_power_of_two_at_most(3), 2);
    assert_eq!(largest_power_of_two_at_most(100), 64);
    assert_eq!(largest_power_of_two_at_most(128), 128);
}

#[test]
fn cpu_window_is_even_and_recent() {
    assert_eq!(rf_cpu_window(Some(100), 1), None);
    assert_eq!(rf_cpu_window(Some(1), 50), None);
    assert_eq!(rf_cpu_window(Some(100), 7), Some((1, 6)));
    assert_eq!(rf_cpu_window(Some(5), 20), Some((16, 4)));
    assert_eq!(rf_cpu_window(None, 9), Some((1, 8)));
    assert_eq!(rf_cpu_window(Some(2), 2), Some((0, 2)));
}

#[test]
fn gpu_window_is_power_of_two() {
    assert_eq!(rf_gpu_window(Some(1), 10), None);
    assert_eq!(rf_gpu_window(Some(100), 300), Some((236, 64)));
    assert_eq!(rf_gpu_window(Some(100), 10), Some((0, 64)));
    assert_eq!(rf_gpu_window(None, 5), Some((1, 4)));
    assert_eq!(rf_gpu_window(None, 0), None);
}

#[test]
fn transpose_lays_out_bin_major() {
    let rows = vec![vec![1, 2, 3], vec![4, 5, 6]];
    assert_eq!(transpose_history(&rows, 3), Some(vec![1, 4, 2, 5, 3, 6]));
    let bad = vec![vec![1, 2, 3], vec![4, 5]];
    assert_eq!(transpose_history(&bad, 3), None);
    let cols = vec![vec![1, 4], vec![2, 5], vec![3, 6]];
    assert_eq!(transpose_history(&cols, 2), Some(vec![1, 2, 3, 4, 5, 6]));
}

#[test]
fn centered_frequencies_start_at_the_most_negative() {
    assert_eq!(centered_freqs(4), vec![-2, -1, 0, 1]);
    assert_eq!(centered_freqs(5), vec![-2, -1, 0, 1, 2]);
    assert_eq!(centered_freqs(1), vec![0]);
    assert_eq!(centered_freqs(0), Vec::<i32>::new());
}

#[test]
fn recent_chunks_are_cut_from_the_end() {
    // ten elements in chunks of four: [0,2) [2,6) [6,10)
    assert_eq!(recent_chunk_ranges(10, 4, 5), vec![(0, 2), (2, 6), (6, 10)]);
    assert_eq!(recent_chunk_ranges(10, 4, 2), vec![(2, 6), (6, 10)]);
    assert_eq!(recent_chunk_ranges(8, 4, 5), vec![(0, 4), (4, 8)]);
    assert_eq!(recent_chunk_ranges(0, 4, 5), Vec::<(usize, usize)>::new());
    assert_eq!(recent_chunk_ranges(10, 4, 0), Vec::<(usize, usize)>::new());
}
