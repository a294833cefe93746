use noma::model::{
    all_present, catalog, find, human_bytes, layout, parakeet_v2, parakeet_v3, Progress, ProgressReader, GIB, MIB,
    REPORT_EVERY,
};

#[test]
fn catalog_ids_are_unique_and_findable() {
    for spec in catalog() {
        assert_eq!(find(spec.id).map(|found| found.id), Some(spec.id));
    }
    assert!(find("not-a-model").is_none());
}

#[test]
fn archive_urls_point_at_the_release() {
    assert_eq!(
        parakeet_v3().archive_url(),
        "https://github.com/k2-fsa/sherpa-onnx/releases/download/asr-models/\
         sherpa-onnx-nemo-parakeet-tdt-0.6b-v3-int8.tar.bz2"
    );
}

#[test]
fn the_catalog_lists_both_parakeets() {
    let all = catalog();
    assert_eq!(all, vec![parakeet_v3(), parakeet_v2()]);
    assert_eq!(parakeet_v3().model_type, "nemo_transducer");
    assert_eq!(parakeet_v2().download_bytes, 482_468_385);
    assert_eq!(find("sherpa-onnx-nemo-parakeet-tdt-0.6b-v2-int8"), Some(parakeet_v2()));
}

/// Drive a counter the way a copy loop drives the reader: chunks of
/// `REPORT_EVERY` bytes until the source runs dry, then a read of zero.
fn collect(total_bytes: u64, declared: u64) -> Vec<Progress> {
    let (mut reader, first) = ProgressReader::new(declared);
    let mut seen = vec![first];
    let mut remaining = total_bytes;
    loop {
        let count = REPORT_EVERY.min(remaining);
        remaining -= count;
        if let Some(progress) = reader.on_read(count) {
            seen.push(progress);
        }
        if count == 0 {
            break;
        }
    }
    seen
}

#[test]
fn reports_a_start_and_a_finish() {
    let seen = collect(REPORT_EVERY * 3, REPORT_EVERY * 3);
    assert_eq!(
        seen.first(),
        Some(&Progress::Downloading {
            received: 0,
            total: REPORT_EVERY * 3
        })
    );
    assert_eq!(
        seen.last(),
        Some(&Progress::Downloading {
            received: REPORT_EVERY * 3,
            total: REPORT_EVERY * 3
        })
    );
}

#[test]
fn progress_never_goes_backwards() {
    let seen = collect(REPORT_EVERY * 4, REPORT_EVERY * 4);
    let received: Vec<u64> = seen
        .iter()
        .map(|progress| match progress {
            Progress::Downloading { received, .. } => *received,
            Progress::Extracting => unreachable!(),
        })
        .collect();
    assert!(received.windows(2).all(|pair| pair[0] <= pair[1]));
}

#[test]
fn a_wrong_content_length_never_exceeds_a_hundred_percent() {
    // Server under-reports: the bar must not run past the end.
    // The bar shows 90% of received over total while downloading; it stays
    // within its 90% even before the application clamps the ratio.
    let seen = collect(REPORT_EVERY * 3, 10);
    assert!(seen.iter().all(|progress| match progress {
        Progress::Downloading { received, total } => {
            *total > 0 && 90.0 * (*received as f32 / *total as f32) <= 90.0
        }
        Progress::Extracting => true,
    }));
}

#[test]
fn small_reads_wait_for_half_a_megabyte() {
    let (mut reader, _) = ProgressReader::new(1_000_000);
    assert_eq!(reader.on_read(1_000), None);
    assert_eq!(reader.on_read(REPORT_EVERY - 1_001), None);
    assert_eq!(
        reader.on_read(1),
        Some(Progress::Downloading {
            received: REPORT_EVERY,
            total: 1_000_000
        })
    );
    assert_eq!(
        reader.on_read(0),
        Some(Progress::Downloading {
            received: REPORT_EVERY,
            total: 1_000_000
        })
    );
}

#[test]
fn byte_sizes_read_like_a_download_dialog() {
    assert_eq!(human_bytes(487_170_055), "465 MB");
    assert_eq!(human_bytes(2_147_483_648), "2.0 GB");
}

/// The sizes as a download dialog computes them, in floating point.
fn by_floats(bytes: u64) -> String {
    let mb = 1_048_576.0f64;
    let gb = 1_073_741_824.0f64;
    let value = bytes as f64;
    if value >= gb {
        format!("{:.1} GB", value / gb)
    } else {
        format!("{:.0} MB", value / mb)
    }
}

#[test]
fn byte_sizes_agree_with_floating_point_formatting() {
    let mut samples: Vec<u64> = vec![
        0,
        1,
        MIB / 2,
        MIB / 2 + 1,
        3 * MIB / 2,
        5 * MIB / 2,
        MIB,
        GIB - 1,
        GIB - MIB / 2,
        GIB,
        5 * (GIB / 4),
        GIB + GIB / 20,
        482_468_385,
        487_170_055,
        (1u64 << 53) - 1,
        1u64 << 53,
        (1u64 << 53) + 1,
        (1u64 << 53) + 3,
        u64::MAX,
        u64::MAX - 1024,
        u64::MAX / 3,
    ];
    let mut x: u64 = 0x9E37_79B9_7F4A_7C15;
    for _ in 0..2000 {
        x ^= x << 13;
        x ^= x >> 7;
        x ^= x << 17;
        samples.push(x >> (x % 64));
    }
    for bytes in samples {
        assert_eq!(human_bytes(bytes), by_floats(bytes), "bytes = {bytes}");
    }
}

#[test]
fn byte_size_ties_round_to_even() {
    assert_eq!(human_bytes(MIB / 2), "0 MB");
    assert_eq!(human_bytes(3 * MIB / 2), "2 MB");
    assert_eq!(human_bytes(5 * MIB / 2), "2 MB");
    assert_eq!(human_bytes(5 * (GIB / 4)), "1.2 GB");
    assert_eq!(human_bytes(u64::MAX), "17179869184.0 GB");
}

#[test]
fn layout_names_the_sherpa_files() {
    let paths = layout(std::path::Path::new("/models/x"), &parakeet_v3());
    assert!(paths.encoder.ends_with("encoder.int8.onnx"));
    assert!(paths.decoder.ends_with("decoder.int8.onnx"));
    assert!(paths.joiner.ends_with("joiner.int8.onnx"));
    assert!(paths.tokens.ends_with("tokens.txt"));
    assert_eq!(paths.model_type, "nemo_transducer");
    assert_eq!(paths.encoder, std::path::PathBuf::from("/models/x/encoder.int8.onnx"));
}

#[test]
fn missing_files_are_not_installed() {
    let paths = layout(std::path::Path::new("/definitely/not/here"), &parakeet_v3());
    assert!(!paths.files_exist());
}

#[test]
fn a_model_needs_all_four_files() {
    assert!(all_present(true, true, true, true));
    assert!(!all_present(false, true, true, true));
    assert!(!all_present(true, true, true, false));
    assert!(!all_present(true, false, true, true));
}
