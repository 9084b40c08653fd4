use rabbit::ascii::{
    density_char, density_index, dimensions, downsample, fit_dimensions, parse_ascii_art,
};

fn lines(rows: &[&str]) -> Vec<String> {
    rows.iter().map(|row| row.to_string()).collect()
}

#[test]
fn parse_ascii_art_trims_trailing_empty_lines() {
    let lines = parse_ascii_art("a\nb\n\n\n");
    assert_eq!(lines, vec!["a".to_string(), "b".to_string()]);
}

#[test]
fn fit_dimensions_scales_down_preserving_aspect_ratio() {
    assert_eq!(fit_dimensions((100, 24), (60, 18)), (60, 14));
    assert_eq!(fit_dimensions((100, 24), (30, 7)), (30, 7));
}

#[test]
fn downsample_emits_requested_dimensions() {
    let input = vec!["# ".to_string(), " .".to_string()];
    let out = downsample(&input, 3, 1);
    assert_eq!(out.len(), 1);
    assert_eq!(out[0].chars().count(), 3);
}

#[test]
fn downsample_identity_preserves_known_ramp_chars() {
    let input = vec![".,:;".to_string(), "ox%#".to_string()];
    let out = downsample(&input, 4, 2);
    assert_eq!(out, input);
}

#[test]
fn density_index_follows_the_ramp() {
    let ramp = [' ', '.', ',', ':', ';', 'o', 'x', '%', '#'];
    for (level, ch) in ramp.iter().enumerate() {
        assert_eq!(usize::from(density_index(*ch)), level);
        assert_eq!(density_char(level), *ch);
    }
}

#[test]
fn density_index_of_unknown_char_is_zero() {
    assert_eq!(density_index('A'), 0);
    assert_eq!(density_index('\n'), 0);
    assert_eq!(density_index('é'), 0);
}

#[test]
fn density_char_clamps_to_darkest() {
    assert_eq!(density_char(8), '#');
    assert_eq!(density_char(9), '#');
    assert_eq!(density_char(usize::MAX), '#');
}

#[test]
fn parse_keeps_interior_empty_lines() {
    assert_eq!(parse_ascii_art("a\n\n\nb\n\n"), lines(&["a", "", "", "b"]));
}

#[test]
fn parse_empty_and_blank_text_gives_no_rows() {
    assert_eq!(parse_ascii_art(""), Vec::<String>::new());
    assert_eq!(parse_ascii_art("\n\n\n"), Vec::<String>::new());
    assert_eq!(parse_ascii_art("\r\n\r\n"), Vec::<String>::new());
}

#[test]
fn parse_strips_carriage_returns() {
    assert_eq!(parse_ascii_art("ab\r\ncd\r\n"), lines(&["ab", "cd"]));
    assert_eq!(parse_ascii_art("cd\r"), lines(&["cd"]));
    assert_eq!(parse_ascii_art("a\rb\r\n"), lines(&["a\rb"]));
}

#[test]
fn parse_strips_one_carriage_return_from_each_line() {
    assert_eq!(parse_ascii_art("a\r\r\nb"), vec!["a\r".to_string(), "b".to_string()]);
    assert_eq!(parse_ascii_art("ab\r\r\ncd\r"), lines(&["ab\r", "cd"]));
    assert_eq!(parse_ascii_art("x\r\r\r"), lines(&["x\r\r"]));
    assert_eq!(parse_ascii_art("\r\r\n"), lines(&["\r"]));
    assert_eq!(parse_ascii_art("a\n\r\n\r"), lines(&["a"]));
}

#[test]
fn parse_keeps_last_line_without_line_feed() {
    assert_eq!(parse_ascii_art("a\nb"), lines(&["a", "b"]));
    assert_eq!(parse_ascii_art("a"), lines(&["a"]));
}

#[test]
fn parse_keeps_lines_of_spaces() {
    assert_eq!(parse_ascii_art("a\n  \n"), lines(&["a", "  "]));
}

#[test]
fn parse_then_strip_leaves_no_empty_line_at_the_end() {
    for text in ["", "\n", "x\n\n", "\n\nx", "x\r\n\r\n\r\n", "a\n\nb\n \n\n"] {
        let rows = parse_ascii_art(text);
        if let Some(last) = rows.last() {
            assert!(!last.is_empty());
        }
    }
}

#[test]
fn dimensions_of_ragged_rows() {
    assert_eq!(dimensions(&lines(&["ab", "abcd", "a"])), (4, 3));
    assert_eq!(dimensions(&lines(&[])), (0, 0));
    assert_eq!(dimensions(&lines(&["", ""])), (0, 2));
}

#[test]
fn dimensions_counts_characters_not_bytes() {
    assert_eq!(dimensions(&lines(&["héé"])), (3, 1));
}

#[test]
fn fit_empty_source_is_one_by_one() {
    assert_eq!(fit_dimensions((0, 5), (10, 10)), (1, 1));
    assert_eq!(fit_dimensions((5, 0), (10, 10)), (1, 1));
    assert_eq!(fit_dimensions((0, 0), (0, 0)), (1, 1));
}

#[test]
fn fit_zero_bound_counts_as_one() {
    assert_eq!(fit_dimensions((10, 10), (0, 0)), (1, 1));
    assert_eq!(fit_dimensions((10, 10), (0, 20)), (1, 1));
}

#[test]
fn fit_leaves_what_fits() {
    assert_eq!(fit_dimensions((5, 5), (10, 10)), (5, 5));
    assert_eq!(fit_dimensions((10, 10), (10, 10)), (10, 10));
}

#[test]
fn fit_never_gives_zero() {
    assert_eq!(fit_dimensions((1000, 1), (10, 10)), (10, 1));
    assert_eq!(fit_dimensions((1, 1000), (10, 10)), (1, 10));
}

#[test]
fn fit_height_pass_scales_width_from_source() {
    assert_eq!(fit_dimensions((10, 100), (10, 10)), (1, 10));
    assert_eq!(fit_dimensions((100, 100), (50, 20)), (20, 20));
}

#[test]
fn fit_stays_within_bounds() {
    for w in 1..40usize {
        for h in 1..40usize {
            for (bw, bh) in [(1usize, 1usize), (3, 7), (7, 3), (16, 16), (39, 2)] {
                let (ow, oh) = fit_dimensions((w, h), (bw, bh));
                assert!(1 <= ow && ow <= bw);
                assert!(1 <= oh && oh <= bh);
            }
        }
    }
}

#[test]
fn fit_of_huge_sizes_does_not_overflow() {
    assert_eq!(fit_dimensions((usize::MAX, usize::MAX), (7, 7)), (7, 7));
    assert_eq!(fit_dimensions((usize::MAX, 2), (usize::MAX - 1, 5)), (usize::MAX - 1, 2));
}

#[test]
fn downsample_averages_with_half_rounded_up() {
    assert_eq!(downsample(&lines(&["##", "  "]), 1, 1), lines(&[";"]));
    assert_eq!(downsample(&lines(&["#."]), 1, 1), lines(&["o"]));
    assert_eq!(downsample(&lines(&[". "]), 1, 1), lines(&["."]));
    assert_eq!(downsample(&lines(&[".  "]), 1, 1), lines(&[" "]));
}

#[test]
fn downsample_boxes_follow_proportion() {
    assert_eq!(downsample(&lines(&["##  ", "##  "]), 2, 1), lines(&["# "]));
    assert_eq!(downsample(&lines(&["#  ", "   ", "  #"]), 3, 1), lines(&[": :"]));
}

#[test]
fn downsample_pads_short_rows_with_spaces() {
    assert_eq!(downsample(&lines(&["#", "##"]), 2, 2), lines(&["# ", "##"]));
    assert_eq!(downsample(&lines(&["#", "####"]), 1, 1), lines(&["o"]));
}

#[test]
fn downsample_reads_unknown_chars_as_lightest() {
    assert_eq!(downsample(&lines(&["A#"]), 2, 1), lines(&[" #"]));
}

#[test]
fn downsample_enlarges_by_repeating() {
    assert_eq!(downsample(&lines(&["#"]), 2, 2), lines(&["##", "##"]));
    assert_eq!(downsample(&lines(&["#."]), 4, 1), lines(&["##.."]));
}

#[test]
fn downsample_zero_target_counts_as_one() {
    assert_eq!(downsample(&lines(&["#"]), 0, 0), lines(&["#"]));
}

#[test]
fn downsample_of_empty_art_gives_empty_rows() {
    assert_eq!(downsample(&lines(&[]), 3, 2), lines(&["", ""]));
    assert_eq!(downsample(&lines(&["", ""]), 3, 2), lines(&["", ""]));
    assert_eq!(downsample(&lines(&[]), 3, 0), lines(&[""]));
}

#[test]
fn downsample_gives_the_size_asked_for() {
    let art = lines(&["#x%o", ".,:;", "  ##", "o"]);
    for w in 1..7usize {
        for h in 1..7usize {
            let out = downsample(&art, w, h);
            assert_eq!(out.len(), h);
            for row in out.iter() {
                assert_eq!(row.chars().count(), w);
            }
        }
    }
}
