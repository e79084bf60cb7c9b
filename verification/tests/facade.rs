use tch::{Device, Engine, Kind, TchError, Tensor};
use tch::kind::Scalar;
use tch::nn::{Id, ModuleT};
use tch::ops::{id, inv, neg, scalar_add, scalar_div, scalar_mul, scalar_sub, sum_tensors};

fn bits(v: &[f64]) -> Vec<u64> {
    v.iter().map(|x| x.to_bits()).collect()
}

fn bits32(v: &[f32]) -> Vec<u32> {
    v.iter().map(|x| x.to_bits()).collect()
}

#[test]
fn scalar_minus_array_concrete() {
    let mut eng = Engine::new();
    let a = Tensor::of_slice::<u64>(&mut eng, &bits(&[1.0, 2.0, 3.0]));
    let r = scalar_sub(&mut eng, Scalar::FloatBits(10.0f64.to_bits()), &a);
    assert_eq!(r.to_vec::<u64>(&eng), bits(&[9.0, 8.0, 7.0]));
    assert_eq!(r.size(&eng), vec![3]);
    assert!(matches!(r.kind(&eng), Kind::Double));
}

#[test]
fn onehot_concrete() {
    let mut eng = Engine::new();
    let labels = Tensor::of_slice::<i64>(&mut eng, &[0, 2]);
    let oh = labels.onehot(&mut eng, 4);
    assert_eq!(oh.size(&eng), vec![2, 4]);
    assert!(matches!(oh.kind(&eng), Kind::Float));
    let rows = oh.to_vec2::<u32>(&eng);
    assert_eq!(rows[0], bits32(&[1.0, 0.0, 0.0, 0.0]));
    assert_eq!(rows[1], bits32(&[0.0, 0.0, 1.0, 0.0]));
}

#[test]
fn onehot_out_of_range_fails() {
    let mut eng = Engine::new();
    let labels = Tensor::of_slice::<i64>(&mut eng, &[0, 5]);
    let r = labels.try_onehot(&mut eng, 4);
    assert!(matches!(r, Err(TchError::IndexOutOfRange { index: 5, bound: 4 })));
}

#[test]
fn promotion_symmetry_int() {
    let mut eng = Engine::new();
    let a = Tensor::of_slice::<i64>(&mut eng, &[3, -4, 5]);
    let l = a.add_s(&mut eng, Scalar::Int(7));
    let r = scalar_add(&mut eng, Scalar::Int(7), &a);
    assert!(l.eq_tensor(&eng, &r));
    assert_eq!(l.to_vec::<i64>(&eng), vec![10, 3, 12]);
}

#[test]
fn promotion_symmetry_float() {
    let mut eng = Engine::new();
    let a = Tensor::of_slice::<u64>(&mut eng, &bits(&[1.5, -2.25, 0.5]));
    let s = Scalar::FloatBits(3.5f64.to_bits());
    let l = a.mul_s(&mut eng, s);
    let r = scalar_mul(&mut eng, s, &a);
    assert!(l.eq_tensor(&eng, &r));
    assert_eq!(l.to_vec::<u64>(&eng), bits(&[5.25, -7.875, 1.75]));
}

#[test]
fn reversal_subtraction() {
    let mut eng = Engine::new();
    let a = Tensor::of_slice::<u64>(&mut eng, &bits(&[1.0, -2.0, 4.0]));
    let s = Scalar::FloatBits(2.0f64.to_bits());
    let left = scalar_sub(&mut eng, s, &a);
    let d = a.sub_s(&mut eng, s);
    let right = neg(&mut eng, d);
    assert!(left.eq_tensor(&eng, &right));
    assert_eq!(left.to_vec::<u64>(&eng), bits(&[1.0, 4.0, -2.0]));
}

#[test]
fn reversal_division() {
    let mut eng = Engine::new();
    let a = Tensor::of_slice::<u64>(&mut eng, &bits(&[1.0, 2.0, -4.0]));
    let s = Scalar::FloatBits(2.0f64.to_bits());
    let left = scalar_div(&mut eng, s, &a);
    let d = a.div_s(&mut eng, s);
    let right = inv(&mut eng, d);
    assert!(left.eq_tensor(&eng, &right));
    assert_eq!(left.to_vec::<u64>(&eng), bits(&[2.0, 1.0, -0.5]));
}

#[test]
fn round_trip_rank0() {
    let mut eng = Engine::new();
    let a = Tensor::of_scalar::<i64>(&mut eng, -42);
    assert_eq!(a.size(&eng), Vec::<i64>::new());
    let v = a.to_scalar::<i64>(&eng);
    assert_eq!(v, -42);
    let b = Tensor::of_scalar::<i64>(&mut eng, v);
    assert!(a.eq_tensor(&eng, &b));
}

#[test]
fn round_trip_rank1() {
    let mut eng = Engine::new();
    let a = Tensor::of_slice::<i32>(&mut eng, &[1, -2, 3]);
    let host = a.to_vec::<i32>(&eng);
    assert_eq!(host, vec![1, -2, 3]);
    let b = Tensor::of_slice::<i32>(&mut eng, &host);
    assert!(a.eq_tensor(&eng, &b));
}

#[test]
fn round_trip_rank1_double() {
    let mut eng = Engine::new();
    let a = Tensor::of_slice::<u64>(&mut eng, &bits(&[0.5, -1.25]));
    let host = a.to_vec::<u64>(&eng);
    let b = Tensor::of_slice::<u64>(&mut eng, &host);
    assert!(a.eq_tensor(&eng, &b));
}

#[test]
fn round_trip_rank2() {
    let mut eng = Engine::new();
    let rows = vec![vec![1i64, 2, 3], vec![4, 5, 6]];
    let a = Tensor::of_vec2::<i64>(&mut eng, &rows);
    assert_eq!(a.size(&eng), vec![2, 3]);
    let back = a.to_vec2::<i64>(&eng);
    assert_eq!(back, rows);
    let b = Tensor::of_vec2::<i64>(&mut eng, &back);
    assert!(a.eq_tensor(&eng, &b));
}

#[test]
fn rank3_extraction() {
    let mut eng = Engine::new();
    let labels = Tensor::of_vec2::<i64>(&mut eng, &vec![vec![0i64, 1], vec![2, 0]]);
    let oh = labels.onehot(&mut eng, 3);
    assert_eq!(oh.size(&eng), vec![2, 2, 3]);
    let cube = oh.to_vec3::<u32>(&eng);
    assert_eq!(cube[0][0], bits32(&[1.0, 0.0, 0.0]));
    assert_eq!(cube[0][1], bits32(&[0.0, 1.0, 0.0]));
    assert_eq!(cube[1][0], bits32(&[0.0, 0.0, 1.0]));
    assert_eq!(cube[1][1], bits32(&[1.0, 0.0, 0.0]));
}

#[test]
fn ragged_input_fails() {
    let mut eng = Engine::new();
    let rows = vec![vec![1i64, 2], vec![3]];
    let r = Tensor::try_of_vec2::<i64>(&mut eng, &rows);
    assert!(matches!(r, Err(TchError::Ragged { expected: 2, found: 1 })));
}

#[test]
fn scalar_extraction_guard() {
    let mut eng = Engine::new();
    let a = Tensor::of_slice::<i64>(&mut eng, &[7, 8, 9]);
    let r = a.try_to_scalar::<i64>(&eng);
    assert!(matches!(r, Err(TchError::ScalarCount { numel: 3 })));
    let one = Tensor::of_slice::<i64>(&mut eng, &[7]);
    assert_eq!(one.try_to_scalar::<i64>(&eng).unwrap(), 7);
}

#[test]
fn inplace_aliasing() {
    let mut eng = Engine::new();
    let a = Tensor::of_slice::<i64>(&mut eng, &[1, 2, 3]);
    let b = a.shallow_clone();
    let c = a.copy(&mut eng);
    a.add_assign_s(&mut eng, Scalar::Int(1));
    assert_eq!(b.to_vec::<i64>(&eng), vec![2, 3, 4]);
    assert_eq!(c.to_vec::<i64>(&eng), vec![1, 2, 3]);
}

#[test]
fn inplace_tensor_operand() {
    let mut eng = Engine::new();
    let a = Tensor::of_slice::<i64>(&mut eng, &[10, 20]);
    let d = Tensor::of_slice::<i64>(&mut eng, &[1, 2]);
    a.mul_assign_t(&mut eng, &d);
    assert_eq!(a.to_vec::<i64>(&eng), vec![10, 40]);
}

#[test]
fn batch_pairing_mismatch_fails() {
    let mut eng = Engine::new();
    let t1 = Tensor::of_slice::<i64>(&mut eng, &[1, 2, 3]);
    let t2 = Tensor::of_slice::<i64>(&mut eng, &[1, 2]);
    let r = Tensor::try_random_batch2(&t1, &t2, &mut eng, 2, Device::Cpu);
    match r {
        Err(TchError::ShapeMismatch { left, right }) => {
            assert_eq!(left, vec![3]);
            assert_eq!(right, vec![2]);
        }
        _ => panic!("expected a shape mismatch"),
    }
}

#[test]
fn batch_pairing_alignment() {
    let mut eng = Engine::new();
    let t1 = Tensor::of_slice::<i64>(&mut eng, &[1, 2, 3, 4]);
    let t2 = t1.mul_s(&mut eng, Scalar::Int(10));
    let (b1, b2) = Tensor::random_batch2(&t1, &t2, &mut eng, 6, Device::Cpu);
    assert_eq!(b1.size(&eng), vec![6]);
    assert_eq!(b2.size(&eng), vec![6]);
    let v1 = b1.to_vec::<i64>(&eng);
    let v2 = b2.to_vec::<i64>(&eng);
    for i in 0..6 {
        assert!(1 <= v1[i] && v1[i] <= 4);
        assert_eq!(v2[i], 10 * v1[i]);
    }
}

#[test]
fn random_batch_rows_come_from_source() {
    let mut eng = Engine::new();
    let rows = vec![vec![1i64, 1], vec![2, 2], vec![3, 3]];
    let t = Tensor::of_vec2::<i64>(&mut eng, &rows);
    let b = t.random_batch(&mut eng, 5);
    assert_eq!(b.size(&eng), vec![5, 2]);
    for row in b.to_vec2::<i64>(&eng) {
        assert_eq!(row[0], row[1]);
        assert!(1 <= row[0] && row[0] <= 3);
    }
}

#[test]
fn randint_in_range() {
    let mut eng = Engine::new();
    let t = Tensor::randint(&mut eng, 5, 100);
    assert_eq!(t.size(&eng), vec![100]);
    for v in t.to_vec::<i64>(&eng) {
        assert!(0 <= v && v < 5);
    }
}

#[test]
fn equality_totality() {
    let mut eng = Engine::new();
    let a = Tensor::of_slice::<i64>(&mut eng, &[1, 2]);
    let b = Tensor::of_slice::<i64>(&mut eng, &[1, 2, 3]);
    assert!(!a.eq_tensor(&eng, &b));
    let c = Tensor::of_slice::<u64>(&mut eng, &bits(&[1.0, 2.0]));
    assert!(!a.eq_tensor(&eng, &c));
    let d = Tensor::of_slice::<i64>(&mut eng, &[1, 2]);
    assert!(a.eq_tensor(&eng, &d));
}

#[test]
fn equality_nan_is_not_reflexive() {
    let mut eng = Engine::new();
    let a = Tensor::of_slice::<u64>(&mut eng, &bits(&[f64::NAN]));
    assert!(!a.eq_tensor(&eng, &a));
    let z1 = Tensor::of_slice::<u64>(&mut eng, &bits(&[0.0]));
    let z2 = Tensor::of_slice::<u64>(&mut eng, &bits(&[-0.0]));
    assert!(z1.eq_tensor(&eng, &z2));
}

#[test]
fn division_by_zero_reported() {
    let mut eng = Engine::new();
    let a = Tensor::of_slice::<i64>(&mut eng, &[4, 5]);
    let r = a.try_binop_scalar(&mut eng, Scalar::Int(0), tch::BinOp::Div);
    assert!(matches!(r, Err(TchError::DivisionByZero)));
}

#[test]
fn kind_mismatch_reported() {
    let mut eng = Engine::new();
    let a = Tensor::of_slice::<i64>(&mut eng, &[1]);
    let b = Tensor::of_slice::<u64>(&mut eng, &bits(&[1.0]));
    let r = a.try_add_t(&mut eng, &b);
    assert!(matches!(r, Err(TchError::KindMismatch { left: Kind::Int64, right: Kind::Double })));
}

#[test]
fn shape_mismatch_reported() {
    let mut eng = Engine::new();
    let a = Tensor::of_slice::<i64>(&mut eng, &[1, 2]);
    let b = Tensor::of_slice::<i64>(&mut eng, &[1, 2, 3]);
    let r = a.try_mul_t(&mut eng, &b);
    match r {
        Err(TchError::ShapeMismatch { left, right }) => {
            assert_eq!(left, vec![2]);
            assert_eq!(right, vec![3]);
        }
        _ => panic!("expected a shape mismatch"),
    }
}

#[test]
fn device_mismatch_reported() {
    let mut eng = Engine::new();
    let a = Tensor::of_slice::<i64>(&mut eng, &[1]);
    let b0 = Tensor::of_slice::<i64>(&mut eng, &[1]);
    let b = b0.to_device(&mut eng, Device::Cuda(0));
    let r = a.try_add_t(&mut eng, &b);
    assert!(matches!(r, Err(TchError::DeviceMismatch { .. })));
}

#[test]
fn unsupported_kind_reported() {
    let mut eng = Engine::new();
    let r = Tensor::try_zeros(&mut eng, &vec![2], Kind::Half, Device::Cpu);
    assert!(matches!(r, Err(TchError::UnsupportedKind { kind: Kind::Half })));
    let a = Tensor::of_slice::<i64>(&mut eng, &[1]);
    let c = a.try_to_kind(&mut eng, Kind::ComplexFloat);
    assert!(matches!(c, Err(TchError::UnsupportedKind { .. })));
}

#[test]
fn negative_dim_reported() {
    let mut eng = Engine::new();
    let r = Tensor::try_zeros(&mut eng, &vec![2, -1], Kind::Float, Device::Cpu);
    assert!(matches!(r, Err(TchError::NegativeDim { dim: -1 })));
}

#[test]
fn scalar_kind_mismatch_reported() {
    let mut eng = Engine::new();
    let a = Tensor::of_slice::<i64>(&mut eng, &[1]);
    let r = a.try_binop_scalar(&mut eng, Scalar::FloatBits(1.5f64.to_bits()), tch::BinOp::Add);
    assert!(matches!(r, Err(TchError::ScalarKindMismatch { kind: Kind::Int64 })));
}

#[test]
fn cast_int_to_double() {
    let mut eng = Engine::new();
    let a = Tensor::of_slice::<i64>(&mut eng, &[3, -4]);
    let d = a.to_kind(&mut eng, Kind::Double);
    assert_eq!(d.to_vec::<u64>(&eng), bits(&[3.0, -4.0]));
}

#[test]
fn cast_double_to_int_truncates() {
    let mut eng = Engine::new();
    let a = Tensor::of_slice::<u64>(&mut eng, &bits(&[2.7, -2.7]));
    let d = a.to_kind(&mut eng, Kind::Int64);
    assert_eq!(d.to_vec::<i64>(&eng), vec![2, -2]);
}

#[test]
fn cast_int_narrowing_wraps() {
    let mut eng = Engine::new();
    let a = Tensor::of_slice::<i64>(&mut eng, &[300, -1]);
    let d = a.to_kind(&mut eng, Kind::Uint8);
    assert_eq!(d.to_vec::<u8>(&eng), vec![44u8, 255u8]);
}

#[test]
fn integer_wrapping_arithmetic() {
    let mut eng = Engine::new();
    let a = Tensor::of_slice::<i8>(&mut eng, &[120i8, -120i8]);
    let r = a.add_s(&mut eng, Scalar::Int(20));
    assert_eq!(r.to_vec::<i8>(&eng), vec![-116i8, -100i8]);
}

#[test]
fn integer_division_truncates() {
    let mut eng = Engine::new();
    let a = Tensor::of_slice::<i64>(&mut eng, &[7, -7]);
    let r = a.div_s(&mut eng, Scalar::Int(2));
    assert_eq!(r.to_vec::<i64>(&eng), vec![3, -3]);
}

#[test]
fn mean_concrete() {
    let mut eng = Engine::new();
    let a = Tensor::of_slice::<u64>(&mut eng, &bits(&[1.0, 2.0, 3.0]));
    let m = a.mean(&mut eng);
    assert_eq!(m.size(&eng), Vec::<i64>::new());
    assert_eq!(m.to_scalar::<u64>(&eng), 2.0f64.to_bits());
}

#[test]
fn nll_loss_concrete() {
    let mut eng = Engine::new();
    let logp = Tensor::of_vec2::<u64>(&mut eng,
        &vec![bits(&[-1.0, -2.0]), bits(&[-3.0, -4.0])]);
    let targets = Tensor::of_slice::<i64>(&mut eng, &[0, 1]);
    let loss = logp.nll_loss(&mut eng, &targets);
    assert_eq!(loss.to_scalar::<u64>(&eng), 2.5f64.to_bits());
}

#[test]
fn nll_loss_ignores_reserved_index() {
    let mut eng = Engine::new();
    let logp = Tensor::of_vec2::<u64>(&mut eng,
        &vec![bits(&[-1.0, -2.0]), bits(&[-3.0, -4.0])]);
    let targets = Tensor::of_slice::<i64>(&mut eng, &[0, -100]);
    let loss = logp.nll_loss(&mut eng, &targets);
    assert_eq!(loss.to_scalar::<u64>(&eng), 1.0f64.to_bits());
}

#[test]
fn accuracy_concrete() {
    let mut eng = Engine::new();
    let logits = Tensor::of_vec2::<u64>(&mut eng,
        &vec![bits(&[1.0, 9.0]), bits(&[8.0, 2.0]), bits(&[0.0, 4.0])]);
    let targets = Tensor::of_slice::<i64>(&mut eng, &[1, 0, 0]);
    let acc = logits.accuracy_for_logits(&mut eng, &targets);
    assert!(matches!(acc.kind(&eng), Kind::Float));
    let v = f32::from_bits(acc.to_scalar::<u32>(&eng));
    assert!((v - 2.0f32 / 3.0f32).abs() < 1e-6);
}

#[test]
fn flat_view_concrete() {
    let mut eng = Engine::new();
    let labels = Tensor::of_vec2::<i64>(&mut eng, &vec![vec![0i64, 1], vec![1, 0]]);
    let oh = labels.onehot(&mut eng, 3);
    let flat = oh.flat_view(&mut eng);
    assert_eq!(flat.size(&eng), vec![2, 6]);
}

#[test]
fn to_device_keeps_values() {
    let mut eng = Engine::new();
    let a = Tensor::of_slice::<i64>(&mut eng, &[1, 2]);
    let b = a.to_device(&mut eng, Device::Cuda(1));
    assert!(matches!(b.device(&eng), Device::Cuda(1)));
    assert_eq!(b.to_vec::<i64>(&eng), vec![1, 2]);
    assert_eq!(b.numel(&eng), 2);
}

#[test]
fn debug_rendering() {
    let mut eng = Engine::new();
    let a = Tensor::of_slice::<i64>(&mut eng, &[1, -2, 3]);
    assert_eq!(a.debug_str(&eng), "[1, -2, 3]");
    let s = Tensor::of_scalar::<i64>(&mut eng, 42);
    assert_eq!(s.debug_str(&eng), "[42]");
    let big = Tensor::of_slice::<i64>(&mut eng, &[0; 12]);
    assert_eq!(big.debug_str(&eng), "Tensor[[12], Int64]");
    let f = Tensor::of_slice::<u64>(&mut eng, &bits(&[1.0]));
    assert!(f.debug_str(&eng).starts_with("Tensor["));
}

#[test]
fn identity_module_shares_storage() {
    let mut eng = Engine::new();
    let a = Tensor::of_slice::<i64>(&mut eng, &[5, 6]);
    let layer = Id();
    let out = layer.forward_t(&mut eng, &a, true);
    a.add_assign_s(&mut eng, Scalar::Int(1));
    assert_eq!(out.to_vec::<i64>(&eng), vec![6, 7]);
}

#[test]
fn index_select_gathers_rows() {
    let mut eng = Engine::new();
    let t = Tensor::of_vec2::<i64>(&mut eng, &vec![vec![1i64, 1], vec![2, 2], vec![3, 3]]);
    let idx = Tensor::of_slice::<i64>(&mut eng, &[2, 0, 2]);
    let g = t.index_select(&mut eng, &idx);
    assert_eq!(g.to_vec2::<i64>(&eng), vec![vec![3, 3], vec![1, 1], vec![3, 3]]);
}

#[test]
fn identity_reversal_helper() {
    let v: i64 = 9;
    assert_eq!(id(v), 9);
}

#[test]
fn negation_concrete() {
    let mut eng = Engine::new();
    let a = Tensor::of_slice::<u64>(&mut eng, &bits(&[1.5, -2.0, 0.0]));
    let n = a.negate(&mut eng);
    assert_eq!(n.to_vec::<u64>(&eng), bits(&[-1.5, 2.0, -0.0]));
    let i = Tensor::of_slice::<i64>(&mut eng, &[3, -4]);
    let ni = neg(&mut eng, i);
    assert_eq!(ni.to_vec::<i64>(&eng), vec![-3, 4]);
}

#[test]
fn recip_reports_integer_zero() {
    let mut eng = Engine::new();
    let a = Tensor::of_slice::<i64>(&mut eng, &[1, 0]);
    assert!(matches!(a.try_recip(&mut eng), Err(TchError::DivisionByZero)));
}

#[test]
fn zeros_concrete() {
    let mut eng = Engine::new();
    let z = Tensor::zeros(&mut eng, &vec![2, 3], Kind::Double, Device::Cpu);
    assert_eq!(z.size(&eng), vec![2, 3]);
    assert_eq!(z.to_vec::<u64>(&eng), bits(&[0.0; 6]));
}

#[test]
fn round_trip_rank3() {
    let mut eng = Engine::new();
    let cube = vec![
        vec![vec![1i64, 2], vec![3, 4], vec![5, 6]],
        vec![vec![7, 8], vec![9, 10], vec![11, 12]],
    ];
    let a = Tensor::of_vec3::<i64>(&mut eng, &cube);
    assert_eq!(a.size(&eng), vec![2, 3, 2]);
    let back = a.to_vec3::<i64>(&eng);
    assert_eq!(back, cube);
    let b = Tensor::of_vec3::<i64>(&mut eng, &back);
    assert!(a.eq_tensor(&eng, &b));
}

#[test]
fn ragged_inner_rank3_fails() {
    let mut eng = Engine::new();
    let cube = vec![vec![vec![1i64, 2], vec![3]]];
    let r = Tensor::try_of_vec3::<i64>(&mut eng, &cube);
    assert!(matches!(r, Err(TchError::Ragged { .. })));
}

#[test]
fn of_flat_builds_any_rank() {
    let mut eng = Engine::new();
    let a = Tensor::of_flat::<i64>(&mut eng, &vec![2, 1, 2], &[1, 2, 3, 4]);
    assert_eq!(a.size(&eng), vec![2, 1, 2]);
    assert_eq!(a.to_vec::<i64>(&eng), vec![1, 2, 3, 4]);
}

#[test]
fn sum_of_tensors() {
    let mut eng = Engine::new();
    let a = Tensor::of_slice::<i64>(&mut eng, &[1, 2]);
    let b = Tensor::of_slice::<i64>(&mut eng, &[10, 20]);
    let c = Tensor::of_slice::<i64>(&mut eng, &[100, 200]);
    let s = sum_tensors(&mut eng, &vec![a, b, c]);
    assert_eq!(s.to_vec::<i64>(&eng), vec![111, 222]);
    let empty = sum_tensors(&mut eng, &Vec::new());
    assert_eq!(empty.size(&eng), Vec::<i64>::new());
    assert!(matches!(empty.kind(&eng), Kind::Double));
    assert_eq!(empty.to_scalar::<u64>(&eng), 0.0f64.to_bits());
}
