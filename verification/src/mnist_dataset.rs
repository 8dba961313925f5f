//! The MNIST data as arrays.
//!
//! Reading the files is not done here. This module takes the bytes as they
//! were read (one byte per pixel, one byte per label or ten per one-hot
//! label) and lays them out: images as a matrix of one row per image and as
//! a stack of 28 by 28 pictures, labels as a matrix of one row per image.
use crate::bigfloat_array::{lemma_volume_push, BigFloatArray};
use crate::scalar::{decimal_of_int, decimal_quotient, decimals, Decimal, Scalar};
use vstd::prelude::*;

verus! {

/// The side of a picture.
pub const SIDE: usize = 28;

/// The number of pixels of a picture.
pub const PIXELS: usize = 784;

/// The number of classes.
pub const CLASSES: usize = 10;

/// The decimal of a pixel: the byte itself, or the byte over 256 where the
/// data is normalized.
pub open spec fn pixel_decimal(byte: u8, normalize: bool) -> Decimal {
    if normalize {
        decimal_quotient(decimal_of_int(byte as int), decimal_of_int(256))
    } else {
        decimal_of_int(byte as int)
    }
}

/// The decimals of a sequence of pixels.
pub open spec fn pixel_decimals(bytes: Seq<u8>, normalize: bool) -> Seq<Decimal> {
    Seq::new(bytes.len(), |i: int| pixel_decimal(bytes[i], normalize))
}

/// The width of a row of labels: ten where the labels are one-hot, one
/// where each is a class.
pub open spec fn label_width(one_hot_encoding: bool) -> usize {
    if one_hot_encoding {
        10
    } else {
        1
    }
}

/// The three parts of the data: training, validation and test set, each
/// with its images in two layouts and its labels.
#[derive(Debug)]
pub struct MnistDataset {
    pub x_train_2d: BigFloatArray,
    pub x_train_3d: BigFloatArray,
    pub t_train: BigFloatArray,
    pub x_val_2d: BigFloatArray,
    pub x_val_3d: BigFloatArray,
    pub t_val: BigFloatArray,
    pub x_test_2d: BigFloatArray,
    pub x_test_3d: BigFloatArray,
    pub t_test: BigFloatArray,
}

/// Whether `flat`, `cube` and `labels` are the arrays of `count` images with
/// the given pixels and labels.
pub open spec fn is_part(
    flat: BigFloatArray,
    cube: BigFloatArray,
    labels: BigFloatArray,
    count: usize,
    pixels: Seq<u8>,
    label_bytes: Seq<u8>,
    normalize: bool,
    one_hot_encoding: bool,
) -> bool {
    &&& flat.is_matrix(count, 784)
    &&& flat@ == pixel_decimals(pixels, normalize)
    &&& cube.wf()
    &&& cube.shape() == seq![count, 28usize, 28usize]
    &&& cube@ == pixel_decimals(pixels, normalize)
    &&& labels.is_matrix(count, label_width(one_hot_encoding))
    &&& labels@ == pixel_decimals(label_bytes, false)
}

/// The decimals of a vector of bytes, each over 256 where `normalize` says
/// so.
pub fn scalars_of(bytes: &Vec<u8>, normalize: bool) -> (r: Vec<Scalar>)
    ensures
        r.len() == bytes.len(),
        decimals(r@) == pixel_decimals(bytes@, normalize),
{
    let scale = Scalar::from_int(256);
    let mut out: Vec<Scalar> = Vec::new();
    let mut i: usize = 0;
    while i < bytes.len()
        invariant
            i <= bytes.len(),
            out.len() == i,
            scale@ == decimal_of_int(256),
            forall|k: int|
                0 <= k < i ==> (#[trigger] out@[k])@ == pixel_decimal(bytes@[k], normalize),
        decreases bytes.len() - i,
    {
        let value = Scalar::from_int(bytes[i] as i64);
        if normalize {
            out.push(value.over(scale));
        } else {
            out.push(value);
        }
        i += 1;
    }
    proof {
        assert(decimals(out@) =~= pixel_decimals(bytes@, normalize));
    }
    out
}

/// The images of one part of the data, as a matrix of `count` rows of 784
/// pixels and as `count` pictures of 28 by 28. `None` where the bytes are
/// not `count` times 784.
pub fn images(pixels: &Vec<u8>, count: usize, normalize: bool) -> (r: Option<(BigFloatArray, BigFloatArray)>)
    ensures
        r.is_some() == (pixels@.len() == count * 784),
        r.is_some() ==> r.unwrap().0.is_matrix(count, 784) && r.unwrap().0@ == pixel_decimals(
            pixels@,
            normalize,
        ) && r.unwrap().1.wf() && r.unwrap().1.shape() == seq![count, 28usize, 28usize]
            && r.unwrap().1@ == pixel_decimals(pixels@, normalize),
{
    let flat = match BigFloatArray::matrix(count, PIXELS, scalars_of(pixels, normalize)) {
        Some(array) => array,
        None => {
            return None;
        },
    };
    let mut dims: Vec<usize> = Vec::new();
    dims.push(count);
    dims.push(SIDE);
    dims.push(SIDE);
    proof {
        assert(dims@ =~= seq![count, 28usize, 28usize]);
        assert(dims@ =~= seq![count].push(28usize).push(28usize));
        lemma_volume_push(seq![count].push(28usize), 28usize);
        lemma_volume_push(seq![count], 28usize);
        crate::bigfloat_array::lemma_volume_of_vector(count);
        assert(count * 28 * 28 == count * 784) by (nonlinear_arith);
    }
    let cube = BigFloatArray::from_vec(dims, scalars_of(pixels, normalize)).unwrap();
    Some((flat, cube))
}

/// The labels of one part of the data, as a matrix of `count` rows: of ten
/// columns where the labels are one-hot, of one column where each label is
/// a class. `None` where the bytes are not as many as that.
pub fn labels(bytes: &Vec<u8>, count: usize, one_hot_encoding: bool) -> (r: Option<BigFloatArray>)
    ensures
        r.is_some() == (bytes@.len() == count * label_width(one_hot_encoding)),
        r.is_some() ==> r.unwrap().is_matrix(count, label_width(one_hot_encoding)) && r.unwrap()@
            == pixel_decimals(bytes@, false),
{
    let width: usize = if one_hot_encoding {
        CLASSES
    } else {
        1
    };
    BigFloatArray::matrix(count, width, scalars_of(bytes, false))
}

/// The data set over the bytes of its three parts. `None` unless every part
/// holds 784 bytes per image and one label (ten bytes where the labels are
/// one-hot, one byte elsewhere) per image.
pub fn assemble(
    trn_img: &Vec<u8>,
    trn_lbl: &Vec<u8>,
    val_img: &Vec<u8>,
    val_lbl: &Vec<u8>,
    tst_img: &Vec<u8>,
    tst_lbl: &Vec<u8>,
    lengths: (u32, u32, u32),
    normalize: bool,
    one_hot_encoding: bool,
) -> (r: Option<MnistDataset>)
    ensures
        r.is_some() == (trn_img@.len() == lengths.0 * 784 && val_img@.len() == lengths.1 * 784
            && tst_img@.len() == lengths.2 * 784 && trn_lbl@.len() == lengths.0 * label_width(
            one_hot_encoding,
        ) && val_lbl@.len() == lengths.1 * label_width(one_hot_encoding) && tst_lbl@.len()
            == lengths.2 * label_width(one_hot_encoding)),
        r.is_some() ==> is_part(
            r.unwrap().x_train_2d,
            r.unwrap().x_train_3d,
            r.unwrap().t_train,
            lengths.0 as usize,
            trn_img@,
            trn_lbl@,
            normalize,
            one_hot_encoding,
        ) && is_part(
            r.unwrap().x_val_2d,
            r.unwrap().x_val_3d,
            r.unwrap().t_val,
            lengths.1 as usize,
            val_img@,
            val_lbl@,
            normalize,
            one_hot_encoding,
        ) && is_part(
            r.unwrap().x_test_2d,
            r.unwrap().x_test_3d,
            r.unwrap().t_test,
            lengths.2 as usize,
            tst_img@,
            tst_lbl@,
            normalize,
            one_hot_encoding,
        ),
{
    let train = images(trn_img, lengths.0 as usize, normalize);
    let val = images(val_img, lengths.1 as usize, normalize);
    let test = images(tst_img, lengths.2 as usize, normalize);
    let t_train = labels(trn_lbl, lengths.0 as usize, one_hot_encoding);
    let t_val = labels(val_lbl, lengths.1 as usize, one_hot_encoding);
    let t_test = labels(tst_lbl, lengths.2 as usize, one_hot_encoding);
    match (train, val, test, t_train, t_val, t_test) {
        (
            Some((x_train_2d, x_train_3d)),
            Some((x_val_2d, x_val_3d)),
            Some((x_test_2d, x_test_3d)),
            Some(t_train),
            Some(t_val),
            Some(t_test),
        ) => Some(
            MnistDataset {
                x_train_2d,
                x_train_3d,
                t_train,
                x_val_2d,
                x_val_3d,
                t_val,
                x_test_2d,
                x_test_3d,
                t_test,
            },
        ),
        _ => None,
    }
}

} // verus!
