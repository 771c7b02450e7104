use flate2::write::GzEncoder;
use flate2::Compression;
use neural_network::mnist::{
    assemble, decode, load_mnist_file, one_hot, MnistData, MnistError, CLASSES, IMAGE_MAGIC,
    IMAGE_SIZE, LABEL_MAGIC,
};
use std::io::Write;

fn gzip(bytes: &[u8]) -> Vec<u8> {
    let mut encoder = GzEncoder::new(Vec::new(), Compression::default());
    encoder.write_all(bytes).unwrap();
    encoder.finish().unwrap()
}

fn label_file(count: i32, labels: &[u8]) -> Vec<u8> {
    let mut bytes = Vec::new();
    bytes.extend_from_slice(&2049i32.to_be_bytes());
    bytes.extend_from_slice(&count.to_be_bytes());
    bytes.extend_from_slice(labels);
    bytes
}

fn image_file(count: i32, rows: i32, cols: i32, pixels: &[u8]) -> Vec<u8> {
    let mut bytes = Vec::new();
    bytes.extend_from_slice(&2051i32.to_be_bytes());
    bytes.extend_from_slice(&count.to_be_bytes());
    bytes.extend_from_slice(&rows.to_be_bytes());
    bytes.extend_from_slice(&cols.to_be_bytes());
    bytes.extend_from_slice(pixels);
    bytes
}

fn pixels(count: usize) -> Vec<u8> {
    (0..count * 784).map(|k| (k % 251) as u8).collect()
}

fn error_of<T>(r: Result<T, MnistError>) -> Option<MnistError> {
    r.err()
}

#[test]
fn constants_describe_the_data_set() {
    assert_eq!(LABEL_MAGIC, 2049);
    assert_eq!(IMAGE_MAGIC, 2051);
    assert_eq!(IMAGE_SIZE, 784);
    assert_eq!(CLASSES, 10);
}

#[test]
fn label_header_is_decoded() {
    let file = decode(&[0, 0, 8, 1, 0, 0, 1, 2, 7, 3, 9]).ok().unwrap();
    assert_eq!(file.metadata, vec![258]);
    assert_eq!(file.data, vec![7, 3, 9]);
}

#[test]
fn image_header_is_decoded() {
    let file = decode(&[0, 0, 8, 3, 0, 0, 234, 96, 0, 0, 0, 28, 0, 0, 0, 28, 1, 2])
        .ok()
        .unwrap();
    assert_eq!(file.metadata, vec![60000, 28, 28]);
    assert_eq!(file.data, vec![1, 2]);
}

#[test]
fn header_fields_are_signed_and_big_endian() {
    let file = decode(&[0, 0, 8, 1, 0xff, 0xf0, 0xbd, 0xc0]).ok().unwrap();
    assert_eq!(file.metadata, vec![-1_000_000]);
    assert!(file.data.is_empty());
    let file = decode(&[0, 0, 8, 1, 0x80, 0, 0, 0]).ok().unwrap();
    assert_eq!(file.metadata, vec![i32::MIN]);
    let file = decode(&[0, 0, 8, 1, 0x7f, 0xff, 0xff, 0xff]).ok().unwrap();
    assert_eq!(file.metadata, vec![i32::MAX]);
}

#[test]
fn short_contents_are_truncated() {
    assert_eq!(error_of(decode(&[])), Some(MnistError::Truncated));
    assert_eq!(error_of(decode(&[0, 0, 8])), Some(MnistError::Truncated));
    assert_eq!(error_of(decode(&[0, 0, 8, 1, 0, 0, 0])), Some(MnistError::Truncated));
    assert_eq!(
        error_of(decode(&[0, 0, 8, 3, 0, 0, 0, 1, 0, 0, 0, 28, 0, 0, 0])),
        Some(MnistError::Truncated)
    );
}

#[test]
fn unknown_magic_is_rejected() {
    assert_eq!(error_of(decode(&[0, 0, 8, 2, 0, 0, 0, 0])), Some(MnistError::BadMagic));
    assert_eq!(error_of(decode(&[1, 8, 0, 0, 0, 0, 0, 0])), Some(MnistError::BadMagic));
}

#[test]
fn compressed_file_is_decoded() {
    let file = MnistData::new(&gzip(&label_file(3, &[7, 3, 9]))).ok().unwrap();
    assert_eq!(file.metadata, vec![3]);
    assert_eq!(file.data, vec![7, 3, 9]);
}

#[test]
fn bytes_that_are_no_gzip_stream_are_rejected() {
    assert_eq!(
        error_of(MnistData::new(&label_file(3, &[7, 3, 9]))),
        Some(MnistError::Gzip)
    );
    assert_eq!(error_of(MnistData::new(&[])), Some(MnistError::Gzip));
}

#[test]
fn cut_gzip_stream_is_rejected() {
    let whole = gzip(&label_file(3, &[7, 3, 9]));
    assert_eq!(
        error_of(MnistData::new(&whole[..whole.len() - 6])),
        Some(MnistError::Gzip)
    );
}

#[test]
fn one_hot_marks_the_label() {
    assert_eq!(one_hot(3, 10), vec![0, 0, 0, 1, 0, 0, 0, 0, 0, 0]);
    assert_eq!(one_hot(0, 2), vec![1, 0]);
    assert_eq!(one_hot(5, 2), vec![0, 0]);
    assert_eq!(one_hot(0, 0), Vec::<u8>::new());
}

#[test]
fn samples_are_cut_from_the_files_in_order() {
    let px = pixels(3);
    let images = decode(&image_file(3, 28, 28, &px)).ok().unwrap();
    let labels = decode(&label_file(3, &[7, 0, 9])).ok().unwrap();
    let samples = assemble(&images, &labels).ok().unwrap();
    assert_eq!(samples.len(), 3);
    for (k, sample) in samples.iter().enumerate() {
        assert_eq!(sample.image, px[k * 784..(k + 1) * 784].to_vec());
        assert_eq!(sample.label, [7u8, 0, 9][k]);
        assert_eq!(sample.label_array, one_hot(sample.label as usize, 10));
        assert_eq!(sample.label_array.iter().filter(|&&v| v == 1).count(), 1);
    }
}

#[test]
fn files_of_the_wrong_kind_are_rejected() {
    let images = decode(&image_file(1, 28, 28, &pixels(1))).ok().unwrap();
    let labels = decode(&label_file(1, &[7])).ok().unwrap();
    assert_eq!(error_of(assemble(&labels, &labels)), Some(MnistError::WrongKind));
    assert_eq!(error_of(assemble(&images, &images)), Some(MnistError::WrongKind));
}

#[test]
fn differing_counts_are_rejected() {
    let images = decode(&image_file(2, 28, 28, &pixels(2))).ok().unwrap();
    let labels = decode(&label_file(1, &[7])).ok().unwrap();
    assert_eq!(error_of(assemble(&images, &labels)), Some(MnistError::CountMismatch));
}

#[test]
fn negative_count_and_odd_image_size_are_rejected() {
    let images = decode(&image_file(-1, 28, 28, &[])).ok().unwrap();
    let labels = decode(&label_file(-1, &[])).ok().unwrap();
    assert_eq!(error_of(assemble(&images, &labels)), Some(MnistError::BadDimensions));
    let images = decode(&image_file(1, 28, 27, &pixels(1))).ok().unwrap();
    let labels = decode(&label_file(1, &[7])).ok().unwrap();
    assert_eq!(error_of(assemble(&images, &labels)), Some(MnistError::BadDimensions));
}

#[test]
fn missing_pixels_or_labels_are_truncated() {
    let px = pixels(2);
    let images = decode(&image_file(2, 28, 28, &px[..1567])).ok().unwrap();
    let labels = decode(&label_file(2, &[7, 1])).ok().unwrap();
    assert_eq!(error_of(assemble(&images, &labels)), Some(MnistError::Truncated));
    let images = decode(&image_file(2, 28, 28, &px)).ok().unwrap();
    let labels = decode(&label_file(2, &[7])).ok().unwrap();
    assert_eq!(error_of(assemble(&images, &labels)), Some(MnistError::Truncated));
}

#[test]
fn label_beyond_the_classes_is_rejected() {
    let images = decode(&image_file(2, 28, 28, &pixels(2))).ok().unwrap();
    let labels = decode(&label_file(2, &[7, 10])).ok().unwrap();
    assert_eq!(error_of(assemble(&images, &labels)), Some(MnistError::BadLabel));
}

#[test]
fn empty_files_give_no_samples() {
    let images = decode(&image_file(0, 28, 28, &[])).ok().unwrap();
    let labels = decode(&label_file(0, &[])).ok().unwrap();
    assert_eq!(assemble(&images, &labels).ok().unwrap().len(), 0);
}

#[test]
fn compressed_pair_is_loaded() {
    let px = pixels(2);
    let samples = load_mnist_file(
        &gzip(&image_file(2, 28, 28, &px)),
        &gzip(&label_file(2, &[4, 2])),
    )
    .ok()
    .unwrap();
    assert_eq!(samples.len(), 2);
    assert_eq!(samples[0].image, px[..784].to_vec());
    assert_eq!(samples[1].image, px[784..].to_vec());
    assert_eq!(samples[0].label, 4);
    assert_eq!(samples[1].label, 2);
    assert_eq!(samples[1].label_array, vec![0, 0, 1, 0, 0, 0, 0, 0, 0, 0]);
}

#[test]
fn first_failing_file_decides_the_error() {
    let good_labels = gzip(&label_file(1, &[4]));
    let bad_magic = gzip(&[0, 0, 8, 2, 0, 0, 0, 0]);
    assert_eq!(
        error_of(load_mnist_file(&[1, 2, 3], &bad_magic)),
        Some(MnistError::Gzip)
    );
    assert_eq!(
        error_of(load_mnist_file(&bad_magic, &[1, 2, 3])),
        Some(MnistError::BadMagic)
    );
    assert_eq!(
        error_of(load_mnist_file(&good_labels, &good_labels)),
        Some(MnistError::WrongKind)
    );
}
