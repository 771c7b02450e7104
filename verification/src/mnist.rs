//! Decoding of the gzip-compressed image and label files.
//!
//! A file is a gzip stream over a big-endian header followed by raw bytes. A
//! label file begins with the magic number 2049 and the number of labels; an
//! image file begins with 2051 and the number of images, of pixel rows and of
//! pixel columns. The bytes after the header are the labels, one byte each,
//! or the pixels, image after image.

use vstd::prelude::*;
use vstd::slice::{slice_subrange, slice_to_vec};
use byteorder::{BigEndian, ByteOrder};
use flate2::read::GzDecoder;
use std::io::Read;

verus! {

/// Magic number that opens a label file.
pub const LABEL_MAGIC: i32 = 2049;

/// Magic number that opens an image file.
pub const IMAGE_MAGIC: i32 = 2051;

/// Number of pixels of one image.
pub const IMAGE_SIZE: usize = 784;

/// Number of classes a label can name.
pub const CLASSES: usize = 10;

/// Why a pair of files could not be turned into samples.
#[derive(Clone, Copy, Debug, PartialEq, Eq, Structural)]
pub enum MnistError {
    /// The bytes are not a gzip stream that decodes to the end.
    Gzip,
    /// The contents end inside the header, or hold fewer pixels or labels
    /// than the header announces.
    Truncated,
    /// The contents begin with neither magic number.
    BadMagic,
    /// A label file stands where an image file is expected, or the reverse.
    WrongKind,
    /// The two files announce different numbers of items.
    CountMismatch,
    /// The number of items is negative, or an image does not hold 784 pixels.
    BadDimensions,
    /// A label does not name one of the ten classes.
    BadLabel,
}

/// The header fields after the magic number, and the bytes after the header.
pub struct MnistData {
    pub metadata: Vec<i32>,
    pub data: Vec<u8>,
}

impl View for MnistData {
    type V = (Seq<i32>, Seq<u8>);

    open spec fn view(&self) -> (Seq<i32>, Seq<u8>) {
        (self.metadata@, self.data@)
    }
}

/// One labelled image: its pixel intensities row by row, the one-hot column
/// of its class, and the class itself.
pub struct MnistImage {
    pub image: Vec<u8>,
    pub label_array: Vec<u8>,
    pub label: u8,
}

/// The signed 32-bit integer whose big-endian bytes are `b0 b1 b2 b3`.
pub open spec fn be_i32(b0: u8, b1: u8, b2: u8, b3: u8) -> int {
    let u: int = b0 as int * 0x100_0000 + b1 as int * 0x1_0000 + b2 as int * 0x100 + b3 as int;
    if u >= 0x8000_0000 {
        u - 0x1_0000_0000
    } else {
        u
    }
}

/// The big-endian integer that begins at position `at` of `bytes`.
pub open spec fn i32_at(bytes: Seq<u8>, at: int) -> int {
    be_i32(bytes[at], bytes[at + 1], bytes[at + 2], bytes[at + 3])
}

/// What `flate2` decodes the gzip stream `compressed` to, or `None` where it
/// reports an error.
pub uninterp spec fn gunzipped(compressed: Seq<u8>) -> Option<Seq<u8>>;

/// Calls `byteorder::ByteOrder::read_i32` for `BigEndian`, which reads the
/// first four bytes of `buf` as a signed integer, most significant byte
/// first, and panics on a shorter buffer.
#[verifier::external_body]
fn read_be_i32(buf: &[u8]) -> (value: i32)
    requires
        buf@.len() >= 4,
    ensures
        value as int == be_i32(buf@[0], buf@[1], buf@[2], buf@[3]),
{
    BigEndian::read_i32(buf)
}

/// Reads a `flate2::read::GzDecoder` over `compressed` to its end. The
/// outcome depends on the bytes alone: the decoded contents, or `None` where
/// the decoder reports an error.
#[verifier::external_body]
fn gunzip(compressed: &[u8]) -> (contents: Option<Vec<u8>>)
    ensures
        match contents {
            Some(bytes) => gunzipped(compressed@) == Some(bytes@),
            None => gunzipped(compressed@).is_none(),
        },
{
    let mut bytes: Vec<u8> = Vec::new();
    match GzDecoder::new(compressed).read_to_end(&mut bytes) {
        Ok(_) => Some(bytes),
        Err(_) => None,
    }
}

/// What file contents decode to.
pub open spec fn decoded(contents: Seq<u8>) -> Result<(Seq<i32>, Seq<u8>), MnistError> {
    if contents.len() < 4 {
        Err(MnistError::Truncated)
    } else if i32_at(contents, 0) == LABEL_MAGIC {
        if contents.len() < 8 {
            Err(MnistError::Truncated)
        } else {
            Ok((seq![i32_at(contents, 4) as i32], contents.subrange(8, contents.len() as int)))
        }
    } else if i32_at(contents, 0) == IMAGE_MAGIC {
        if contents.len() < 16 {
            Err(MnistError::Truncated)
        } else {
            Ok(
                (
                    seq![
                        i32_at(contents, 4) as i32,
                        i32_at(contents, 8) as i32,
                        i32_at(contents, 12) as i32,
                    ],
                    contents.subrange(16, contents.len() as int),
                ),
            )
        }
    } else {
        Err(MnistError::BadMagic)
    }
}

/// What a compressed file decodes to.
pub open spec fn decoded_file(compressed: Seq<u8>) -> Result<(Seq<i32>, Seq<u8>), MnistError> {
    match gunzipped(compressed) {
        Some(contents) => decoded(contents),
        None => Err(MnistError::Gzip),
    }
}

/// The column of `classes` entries that is 1 at `label` and 0 elsewhere.
pub open spec fn one_hot_of(label: int, classes: int) -> Seq<u8> {
    Seq::new(
        classes as nat,
        |k: int|
            if k == label {
                1u8
            } else {
                0u8
            },
    )
}

/// Why decoded image and label files do not give samples, if they do not.
pub open spec fn assembly_error(images: (Seq<i32>, Seq<u8>), labels: (Seq<i32>, Seq<u8>)) -> Option<
    MnistError,
> {
    if images.0.len() != 3 || labels.0.len() != 1 {
        Some(MnistError::WrongKind)
    } else if images.0[0] != labels.0[0] {
        Some(MnistError::CountMismatch)
    } else if images.0[0] < 0 {
        Some(MnistError::BadDimensions)
    } else if images.0[0] == 0 {
        None
    } else if images.0[1] * images.0[2] != IMAGE_SIZE {
        Some(MnistError::BadDimensions)
    } else if images.1.len() < images.0[0] * IMAGE_SIZE || labels.1.len() < images.0[0] {
        Some(MnistError::Truncated)
    } else if exists|k: int| 0 <= k < images.0[0] && #[trigger] labels.1[k] >= CLASSES {
        Some(MnistError::BadLabel)
    } else {
        None
    }
}

/// `sample` is item `k` of the two files: its pixels are the `k`-th run of
/// 784 bytes, its label the `k`-th label byte, its target the one-hot column
/// of that label.
pub open spec fn is_sample(sample: MnistImage, pixels: Seq<u8>, labels: Seq<u8>, k: int) -> bool {
    &&& sample.image@ == pixels.subrange(k * IMAGE_SIZE, (k + 1) * IMAGE_SIZE)
    &&& sample.label == labels[k]
    &&& sample.label_array@ == one_hot_of(labels[k] as int, CLASSES as int)
}

/// Why a pair of compressed files does not give samples, if it does not: the
/// image file is decoded first, then the label file, then the two are put
/// together.
pub open spec fn load_error(image_file: Seq<u8>, label_file: Seq<u8>) -> Option<MnistError> {
    match decoded_file(image_file) {
        Err(e) => Some(e),
        Ok(images) => match decoded_file(label_file) {
            Err(e) => Some(e),
            Ok(labels) => assembly_error(images, labels),
        },
    }
}

fn word_at(contents: &[u8], at: usize) -> (word: i32)
    requires
        at + 4 <= contents@.len(),
    ensures
        word as int == i32_at(contents@, at as int),
{
    let len = contents.len();
    assert(at + 4 <= len);
    read_be_i32(slice_subrange(contents, at, at + 4))
}

/// Builds the column of `classes` entries that is 1 at `label` and 0
/// elsewhere.
pub fn one_hot(label: usize, classes: usize) -> (column: Vec<u8>)
    ensures
        column@ == one_hot_of(label as int, classes as int),
{
    let mut column: Vec<u8> = Vec::new();
    let mut k: usize = 0;
    while k < classes
        invariant
            k <= classes,
            column@ == one_hot_of(label as int, k as int),
        decreases classes - k,
    {
        column.push(if k == label { 1 } else { 0 });
        proof {
            assert(column@ =~= one_hot_of(label as int, k + 1));
        }
        k += 1;
    }
    column
}

/// Splits decompressed file contents into header fields and payload.
pub fn decode(contents: &[u8]) -> (r: Result<MnistData, MnistError>)
    ensures
        match r {
            Ok(file) => decoded(contents@) == Ok::<_, MnistError>(file@),
            Err(e) => decoded(contents@) == Err::<(Seq<i32>, Seq<u8>), _>(e),
        },
{
    if contents.len() < 4 {
        return Err(MnistError::Truncated);
    }
    let magic = word_at(contents, 0);
    let fields: usize = if magic == LABEL_MAGIC {
        1
    } else if magic == IMAGE_MAGIC {
        3
    } else {
        return Err(MnistError::BadMagic);
    };
    let header: usize = 4 + 4 * fields;
    if contents.len() < header {
        return Err(MnistError::Truncated);
    }
    let mut metadata: Vec<i32> = Vec::with_capacity(fields);
    let mut k: usize = 0;
    while k < fields
        invariant
            k <= fields <= 3,
            header == 4 + 4 * fields,
            header <= contents@.len(),
            metadata@.len() == k,
            forall|j: int| 0 <= j < k ==> metadata@[j] == i32_at(contents@, 4 + 4 * j),
        decreases fields - k,
    {
        metadata.push(word_at(contents, 4 + 4 * k));
        k += 1;
    }
    let data = slice_to_vec(slice_subrange(contents, header, contents.len()));
    proof {
        let expected = decoded(contents@);
        assert(expected.is_ok());
        assert(metadata@ =~= expected.unwrap().0);
        assert(data@ =~= expected.unwrap().1);
    }
    Ok(MnistData { metadata, data })
}

impl MnistData {
    /// Decompresses a file and splits it into header fields and payload.
    pub fn new(compressed: &[u8]) -> (r: Result<MnistData, MnistError>)
        ensures
            match r {
                Ok(file) => decoded_file(compressed@) == Ok::<_, MnistError>(file@),
                Err(e) => decoded_file(compressed@) == Err::<(Seq<i32>, Seq<u8>), _>(e),
            },
    {
        match gunzip(compressed) {
            Some(contents) => decode(contents.as_slice()),
            None => Err(MnistError::Gzip),
        }
    }
}

/// Puts a decoded image file and a decoded label file together: one sample
/// per item, in file order.
pub fn assemble(images: &MnistData, labels: &MnistData) -> (r: Result<Vec<MnistImage>, MnistError>)
    ensures
        r.is_err() <==> assembly_error(images@, labels@).is_some(),
        r matches Err(e) ==> assembly_error(images@, labels@) == Some(e),
        r matches Ok(samples) ==> {
            &&& samples@.len() == images.metadata@[0]
            &&& forall|k: int|
                0 <= k < samples@.len() ==> is_sample(
                    #[trigger] samples@[k],
                    images.data@,
                    labels.data@,
                    k,
                )
        },
{
    if images.metadata.len() != 3 || labels.metadata.len() != 1 {
        return Err(MnistError::WrongKind);
    }
    let count = images.metadata[0];
    if count != labels.metadata[0] {
        return Err(MnistError::CountMismatch);
    }
    if count < 0 {
        return Err(MnistError::BadDimensions);
    }
    let mut samples: Vec<MnistImage> = Vec::new();
    if count == 0 {
        return Ok(samples);
    }
    let rows = images.metadata[1] as i64;
    let cols = images.metadata[2] as i64;
    assert(-0x4000_0000_0000_0000 <= rows * cols <= 0x4000_0000_0000_0000) by (nonlinear_arith)
        requires
            -0x8000_0000 <= rows <= 0x7fff_ffff,
            -0x8000_0000 <= cols <= 0x7fff_ffff,
    ;
    if rows * cols != IMAGE_SIZE as i64 {
        return Err(MnistError::BadDimensions);
    }
    let n = count as u64;
    if (images.data.len() as u64) < n * (IMAGE_SIZE as u64) || (labels.data.len() as u64) < n {
        return Err(MnistError::Truncated);
    }
    let total: usize = count as usize;
    let mut k: usize = 0;
    while k < total
        invariant
            k <= total,
            images.metadata@.len() == 3,
            labels.metadata@.len() == 1,
            0 < total == images.metadata@[0] == labels.metadata@[0],
            images.metadata@[1] * images.metadata@[2] == IMAGE_SIZE,
            total * IMAGE_SIZE <= images.data@.len() <= usize::MAX,
            total <= labels.data@.len(),
            samples@.len() == k,
            forall|j: int| 0 <= j < k ==> labels.data@[j] < CLASSES,
            forall|j: int|
                0 <= j < k ==> is_sample(#[trigger] samples@[j], images.data@, labels.data@, j),
        decreases total - k,
    {
        let label = labels.data[k];
        if label as usize >= CLASSES {
            return Err(MnistError::BadLabel);
        }
        let start: usize = k * IMAGE_SIZE;
        let image = slice_to_vec(slice_subrange(images.data.as_slice(), start, start + IMAGE_SIZE));
        let label_array = one_hot(label as usize, CLASSES);
        samples.push(MnistImage { image, label_array, label });
        k += 1;
    }
    Ok(samples)
}

/// Turns the compressed contents of an image file and of a label file into
/// samples.
pub fn load_mnist_file(image_file: &[u8], label_file: &[u8]) -> (r: Result<
    Vec<MnistImage>,
    MnistError,
>)
    ensures
        r.is_err() <==> load_error(image_file@, label_file@).is_some(),
        r matches Err(e) ==> load_error(image_file@, label_file@) == Some(e),
        r matches Ok(samples) ==> {
            &&& decoded_file(image_file@) matches Ok(images)
            &&& decoded_file(label_file@) matches Ok(labels)
            &&& samples@.len() == images.0[0]
            &&& forall|k: int|
                0 <= k < samples@.len() ==> is_sample(#[trigger] samples@[k], images.1, labels.1, k)
        },
{
    let images = match MnistData::new(image_file) {
        Ok(file) => file,
        Err(e) => {
            return Err(e);
        },
    };
    let labels = match MnistData::new(label_file) {
        Ok(file) => file,
        Err(e) => {
            return Err(e);
        },
    };
    assemble(&images, &labels)
}

} // verus!
