use revgrad::ops::{CropOp, ExpandOp, MaxOp, PadOp, PermuteOp, ReshapeOp, SumOp, UnaryDiffOp, UnaryOp};
use revgrad::tensor::Diffable;

/// A naive dense tensor backend for exercising the differentiation rules:
/// row-major `f64` storage, every operation implemented by walking
/// multi-indices.
#[derive(Clone, Debug, PartialEq)]
struct DenseTensor {
    shape: Vec<usize>,
    data: Vec<f64>,
}

fn numel(shape: &[usize]) -> usize {
    shape.iter().product()
}

fn unravel(mut lin: usize, shape: &[usize]) -> Vec<usize> {
    let mut idx = vec![0; shape.len()];
    for i in (0..shape.len()).rev() {
        idx[i] = lin % shape[i];
        lin /= shape[i];
    }
    idx
}

fn ravel(idx: &[usize], shape: &[usize]) -> usize {
    let mut lin = 0;
    for i in 0..shape.len() {
        lin = lin * shape[i] + idx[i];
    }
    lin
}

fn tensor(shape: &[usize], data: &[f64]) -> DenseTensor {
    assert_eq!(numel(shape), data.len());
    DenseTensor { shape: shape.to_vec(), data: data.to_vec() }
}

fn filled(shape: &[usize], value: f64) -> DenseTensor {
    DenseTensor { shape: shape.to_vec(), data: vec![value; numel(shape)] }
}

fn counting(shape: &[usize]) -> DenseTensor {
    DenseTensor { shape: shape.to_vec(), data: (0..numel(shape)).map(|v| v as f64).collect() }
}

impl DenseTensor {
    fn zipped(&self, other: &DenseTensor, f: impl Fn(f64, f64) -> f64) -> DenseTensor {
        assert_eq!(self.shape, other.shape);
        DenseTensor {
            shape: self.shape.clone(),
            data: self.data.iter().zip(other.data.iter()).map(|(&a, &b)| f(a, b)).collect(),
        }
    }
}

impl Diffable for DenseTensor {
    fn shape_spec(&self) -> vstd::seq::Seq<usize> {
        panic!("ghost view of the shape; never called at runtime")
    }

    fn sum_spec(self, _axes: vstd::seq::Seq<usize>) -> Self {
        panic!("ghost observer; never called at runtime")
    }

    fn max_spec(self, _axes: vstd::seq::Seq<usize>) -> Self {
        panic!("ghost observer; never called at runtime")
    }

    fn expand_spec(self, _new_shape: vstd::seq::Seq<usize>) -> Self {
        panic!("ghost observer; never called at runtime")
    }

    fn reshape_spec(self, _new_shape: vstd::seq::Seq<usize>) -> Self {
        panic!("ghost observer; never called at runtime")
    }

    fn permute_spec(self, _order: vstd::seq::Seq<usize>) -> Self {
        panic!("ghost observer; never called at runtime")
    }

    fn pad_spec(self, _padding: vstd::seq::Seq<(usize, usize)>) -> Self {
        panic!("ghost observer; never called at runtime")
    }

    fn crop_spec(self, _limits: vstd::seq::Seq<(usize, usize)>) -> Self {
        panic!("ghost observer; never called at runtime")
    }

    fn elementwise_eq_spec(self, _other: Self) -> Self {
        panic!("ghost observer; never called at runtime")
    }

    fn elementwise_div_spec(self, _other: Self) -> Self {
        panic!("ghost observer; never called at runtime")
    }

    fn elementwise_mul_spec(self, _other: Self) -> Self {
        panic!("ghost observer; never called at runtime")
    }

    fn shape(&self) -> Vec<usize> {
        self.shape.clone()
    }

    fn dup(&self) -> DenseTensor {
        self.clone()
    }

    fn sum(&self, axes: &[usize]) -> DenseTensor {
        let out_shape: Vec<usize> = (0..self.shape.len())
            .map(|i| if axes.contains(&i) { 1 } else { self.shape[i] })
            .collect();
        let mut out = vec![0.0; numel(&out_shape)];
        for lin in 0..self.data.len() {
            let idx = unravel(lin, &self.shape);
            let oidx: Vec<usize> =
                (0..idx.len()).map(|i| if axes.contains(&i) { 0 } else { idx[i] }).collect();
            out[ravel(&oidx, &out_shape)] += self.data[lin];
        }
        DenseTensor { shape: out_shape, data: out }
    }

    fn max(&self, axes: &[usize]) -> DenseTensor {
        let out_shape: Vec<usize> = (0..self.shape.len())
            .map(|i| if axes.contains(&i) { 1 } else { self.shape[i] })
            .collect();
        let mut out = vec![f64::NEG_INFINITY; numel(&out_shape)];
        for lin in 0..self.data.len() {
            let idx = unravel(lin, &self.shape);
            let oidx: Vec<usize> =
                (0..idx.len()).map(|i| if axes.contains(&i) { 0 } else { idx[i] }).collect();
            let slot = &mut out[ravel(&oidx, &out_shape)];
            *slot = slot.max(self.data[lin]);
        }
        DenseTensor { shape: out_shape, data: out }
    }

    fn expand(&self, new_shape: &[usize]) -> DenseTensor {
        let mut out = Vec::with_capacity(numel(new_shape));
        for lin in 0..numel(new_shape) {
            let idx = unravel(lin, new_shape);
            let iidx: Vec<usize> =
                (0..idx.len()).map(|i| if self.shape[i] == 1 { 0 } else { idx[i] }).collect();
            out.push(self.data[ravel(&iidx, &self.shape)]);
        }
        DenseTensor { shape: new_shape.to_vec(), data: out }
    }

    fn reshape(&self, new_shape: &[usize]) -> DenseTensor {
        assert_eq!(numel(new_shape), self.data.len());
        DenseTensor { shape: new_shape.to_vec(), data: self.data.clone() }
    }

    fn permute(&self, order: &[usize]) -> DenseTensor {
        let out_shape: Vec<usize> = order.iter().map(|&o| self.shape[o]).collect();
        let mut out = vec![0.0; self.data.len()];
        for lin in 0..self.data.len() {
            let idx = unravel(lin, &self.shape);
            let ridx: Vec<usize> = order.iter().map(|&o| idx[o]).collect();
            out[ravel(&ridx, &out_shape)] = self.data[lin];
        }
        DenseTensor { shape: out_shape, data: out }
    }

    fn pad(&self, padding: &[(usize, usize)]) -> DenseTensor {
        let out_shape: Vec<usize> = (0..self.shape.len())
            .map(|i| padding[i].0 + self.shape[i] + padding[i].1)
            .collect();
        let mut out = vec![0.0; numel(&out_shape)];
        for lin in 0..self.data.len() {
            let idx = unravel(lin, &self.shape);
            let oidx: Vec<usize> = (0..idx.len()).map(|i| idx[i] + padding[i].0).collect();
            out[ravel(&oidx, &out_shape)] = self.data[lin];
        }
        DenseTensor { shape: out_shape, data: out }
    }

    fn crop(&self, limits: &[(usize, usize)]) -> DenseTensor {
        let out_shape: Vec<usize> = limits.iter().map(|&(start, end)| end - start).collect();
        let mut out = Vec::with_capacity(numel(&out_shape));
        for lin in 0..numel(&out_shape) {
            let idx = unravel(lin, &out_shape);
            let iidx: Vec<usize> = (0..idx.len()).map(|i| idx[i] + limits[i].0).collect();
            out.push(self.data[ravel(&iidx, &self.shape)]);
        }
        DenseTensor { shape: out_shape, data: out }
    }

    fn elementwise_eq(&self, other: &DenseTensor) -> DenseTensor {
        self.zipped(other, |a, b| if a == b { 1.0 } else { 0.0 })
    }

    fn elementwise_div(&self, other: &DenseTensor) -> DenseTensor {
        self.zipped(other, |a, b| a / b)
    }

    fn elementwise_mul(&self, other: &DenseTensor) -> DenseTensor {
        self.zipped(other, |a, b| a * b)
    }
}

#[test]
fn sum_round_trip_broadcasts_not_divides() {
    let input = counting(&[4, 3]);
    let (state, out) = SumOp::f(&input, &[1]);
    assert_eq!(out.shape, [4, 1]);
    assert_eq!(out.data, [3.0, 12.0, 21.0, 30.0]);
    let grad = state.df_dfda(&filled(&[4, 1], 1.0));
    assert_eq!(grad.shape, [4, 3]);
    assert_eq!(grad.data, vec![1.0; 12]);
}

#[test]
fn max_tie_splitting_shares_the_gradient() {
    let input = tensor(&[2], &[1.0, 1.0]);
    let (state, out) = MaxOp::f(&input, &[0]);
    assert_eq!(out.shape, [1]);
    assert_eq!(out.data, [1.0]);
    let grad = state.df_dfda(&tensor(&[1], &[3.0]));
    assert_eq!(grad.shape, [2]);
    assert_eq!(grad.data, [1.5, 1.5]);
}

#[test]
fn max_backward_routes_gradient_to_each_group_maximum() {
    let input = tensor(&[2, 2], &[1.0, 5.0, 7.0, 7.0]);
    let (state, out) = MaxOp::f(&input, &[1]);
    assert_eq!(out.shape, [2, 1]);
    assert_eq!(out.data, [5.0, 7.0]);
    let grad = state.df_dfda(&tensor(&[2, 1], &[1.0, 2.0]));
    assert_eq!(grad.shape, [2, 2]);
    assert_eq!(grad.data, [0.0, 1.0, 1.0, 1.0]);
}

#[test]
fn expand_sum_adjoint_symmetry_takes_column_sums() {
    let input = tensor(&[1, 3], &[10.0, 20.0, 30.0]);
    let (state, out) = ExpandOp::f(&input, &[4, 3]);
    assert_eq!(out.shape, [4, 3]);
    assert_eq!(out.data[..3], [10.0, 20.0, 30.0]);
    let upstream = counting(&[4, 3]);
    let grad = state.df_dfda(&upstream);
    assert_eq!(grad.shape, [1, 3]);
    assert_eq!(grad.data, [0.0 + 3.0 + 6.0 + 9.0, 1.0 + 4.0 + 7.0 + 10.0, 2.0 + 5.0 + 8.0 + 11.0]);
}

#[test]
fn reshape_backward_restores_the_captured_shape() {
    let input = counting(&[2, 3]);
    let (state, out) = ReshapeOp::f(&input, &[6]);
    assert_eq!(out.shape, [6]);
    let grad = state.df_dfda(&counting(&[6]));
    assert_eq!(grad.shape, [2, 3]);
    assert_eq!(grad.data, counting(&[6]).data);
}

#[test]
fn permute_round_trip_applies_the_inverse_order() {
    let input = counting(&[2, 3, 4]);
    let (state, out) = PermuteOp::f(&input, &[2, 0, 1]);
    assert_eq!(out.shape, [4, 2, 3]);
    let upstream = counting(&[4, 2, 3]);
    let grad = state.df_dfda(&upstream);
    assert_eq!(grad.shape, [2, 3, 4]);
    assert_eq!(grad, upstream.permute(&[1, 2, 0]));
}

#[test]
fn pad_backward_crops_to_the_original_region() {
    let input = counting(&[5]);
    let (state, out) = PadOp::f(&input, &[(2, 1)]);
    assert_eq!(out.shape, [8]);
    assert_eq!(out.data, [0.0, 0.0, 0.0, 1.0, 2.0, 3.0, 4.0, 0.0]);
    let grad = state.df_dfda(&counting(&[8]));
    assert_eq!(grad.shape, [5]);
    assert_eq!(grad.data, [2.0, 3.0, 4.0, 5.0, 6.0]);
}

#[test]
fn crop_backward_pads_with_zero_fill() {
    let input = counting(&[5]);
    let (state, out) = CropOp::f(&input, &[(1, 4)]);
    assert_eq!(out.shape, [3]);
    assert_eq!(out.data, [1.0, 2.0, 3.0]);
    let grad = state.df_dfda(&tensor(&[3], &[10.0, 20.0, 30.0]));
    assert_eq!(grad.shape, [5]);
    assert_eq!(grad.data, [0.0, 10.0, 20.0, 30.0, 0.0]);
}

#[test]
fn pad_then_crop_restores_shape_and_values() {
    let input = tensor(&[2, 3], &[1.0, 2.0, 3.0, 4.0, 5.0, 6.0]);
    let (state, padded) = PadOp::f(&input, &[(1, 1), (0, 2)]);
    assert_eq!(padded.shape, [4, 5]);
    let restored = state.df_dfda(&padded);
    assert_eq!(restored, input);
}
