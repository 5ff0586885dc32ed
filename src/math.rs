use vstd::prelude::*;
use crate::geometry::{Vec2, Vec3, LIMIT, bounded, magnitude, div_floor};
use crate::trig::{UNIT, STEPS, sin_of, cos_of, sin_fine, cos_fine, sine, cosine, sine_fine, cosine_fine};

verus! {

/// A 4×4 matrix as sixteen fixed-point entries (units of `1 / UNIT`), in the
/// order the drawing surface takes them.
pub type Matrix = [i64; 16];

/// The screen-space placement matrix: rotate by `rotation` (millidegrees),
/// scale by `scale` (units of `1 / UNIT`), then translate.
pub open spec fn rotation_matrix_2d(rotation: int, scale: int, translation: Vec2) -> Seq<i64> {
    let c = (cos_of(rotation) * scale / UNIT as int) as i64;
    let s = (sin_of(rotation) * scale / UNIT as int) as i64;
    seq![
        c, s, 0, 0,
        (-s) as i64, c, 0, 0,
        0, 0, UNIT, 0,
        translation.x, translation.y, 0, UNIT,
    ]
}

pub fn create_rotation_matrix_2d(rotation: i64, scale: i64, translation: Vec2) -> (r: Matrix)
    requires
        -LIMIT <= scale <= LIMIT,
    ensures
        r@ == rotation_matrix_2d(rotation as int, scale as int, translation),
{
    let c0 = cosine(rotation);
    let s0 = sine(rotation);
    proof {
        let l = LIMIT as int;
        assert(-l * UNIT <= c0 * scale <= l * UNIT) by (nonlinear_arith)
            requires
                -UNIT <= c0 <= UNIT,
                -l <= scale <= l,
        ;
        assert(-l * UNIT <= s0 * scale <= l * UNIT) by (nonlinear_arith)
            requires
                -UNIT <= s0 <= UNIT,
                -l <= scale <= l,
        ;
        vstd::arithmetic::div_mod::lemma_div_is_ordered(-l * UNIT, s0 * scale, UNIT as int);
        vstd::arithmetic::div_mod::lemma_div_is_ordered(s0 * scale, l * UNIT, UNIT as int);
        vstd::arithmetic::div_mod::lemma_div_multiples_vanish(l, UNIT as int);
        vstd::arithmetic::div_mod::lemma_div_multiples_vanish(-l, UNIT as int);
        assert(l * UNIT == UNIT * l);
        assert(-l * UNIT == UNIT * (-l));
    }
    let c = div_floor(c0 * scale, UNIT);
    let s = div_floor(s0 * scale, UNIT);
    let r = [
        c, s, 0, 0,
        -s, c, 0, 0,
        0, 0, UNIT, 0,
        translation.x, translation.y, 0, UNIT,
    ];
    assert(r@ =~= rotation_matrix_2d(rotation as int, scale as int, translation));
    r
}

/// The largest entry size that `multiply_matrices` accepts.
pub const ENTRY_LIMIT: i64 = 16_777_216;

/// The largest near or far plane distance that `create_perspective_matrix` accepts.
pub const PLANE_LIMIT: i64 = 16_777_216;

/// Camera rotation (yaw about Y combined with pitch about X) followed by a
/// move of the world by `-camera_pos`.
pub open spec fn view_matrix(camera_pos: Vec3, angle_x: int, angle_y: int) -> Seq<i64> {
    let u = UNIT as int;
    let cx = cos_of(angle_x);
    let sx = sin_of(angle_x);
    let cy = cos_of(angle_y);
    let sy = sin_of(angle_y);
    seq![
        cy as i64, (sx * sy / u) as i64, (-(cx * sy) / u) as i64, 0,
        0, cx as i64, sx as i64, 0,
        sy as i64, (-(sx * cy) / u) as i64, (cx * cy / u) as i64, 0,
        (-camera_pos.x) as i64, (-camera_pos.y) as i64, (-camera_pos.z) as i64, UNIT,
    ]
}

proof fn lemma_product_div_bounded(a: int, b: int)
    requires
        -UNIT <= a <= UNIT,
        -UNIT <= b <= UNIT,
    ensures
        -UNIT <= (a * b) / (UNIT as int) <= UNIT,
        -UNIT <= (-(a * b)) / (UNIT as int) <= UNIT,
{
    let u = UNIT as int;
    assert(-u * u <= a * b <= u * u) by (nonlinear_arith)
        requires
            -u <= a <= u,
            -u <= b <= u,
    ;
    vstd::arithmetic::div_mod::lemma_div_is_ordered(-u * u, a * b, u);
    vstd::arithmetic::div_mod::lemma_div_is_ordered(a * b, u * u, u);
    vstd::arithmetic::div_mod::lemma_div_is_ordered(-u * u, -(a * b), u);
    vstd::arithmetic::div_mod::lemma_div_is_ordered(-(a * b), u * u, u);
    vstd::arithmetic::div_mod::lemma_div_multiples_vanish(u, u);
    vstd::arithmetic::div_mod::lemma_div_multiples_vanish(-u, u);
    assert(-u * u == u * (-u));
}

pub fn create_view_matrix(camera_pos: Vec3, angle_x: i64, angle_y: i64) -> (r: Matrix)
    requires
        bounded(camera_pos),
    ensures
        r@ == view_matrix(camera_pos, angle_x as int, angle_y as int),
{
    let cx = cosine(angle_x);
    let sx = sine(angle_x);
    let cy = cosine(angle_y);
    let sy = sine(angle_y);
    proof {
        lemma_product_div_bounded(sx as int, sy as int);
        lemma_product_div_bounded(cx as int, sy as int);
        lemma_product_div_bounded(sx as int, cy as int);
        lemma_product_div_bounded(cx as int, cy as int);
    }
    let r = [
        cy, div_floor(sx * sy, UNIT), div_floor(-(cx * sy), UNIT), 0,
        0, cx, sx, 0,
        sy, div_floor(-(sx * cy), UNIT), div_floor(cx * cy, UNIT), 0,
        -camera_pos.x, -camera_pos.y, -camera_pos.z, UNIT,
    ];
    assert(r@ =~= view_matrix(camera_pos, angle_x as int, angle_y as int));
    r
}

/// An OpenGL-style perspective matrix with `f = 1 / tan(fov / 2)`; `fov` in
/// millidegrees, the rest in units of `1 / UNIT`. The half angle is taken
/// exactly, as `fov` half-millidegrees.
pub open spec fn perspective_matrix(fov: int, aspect_ratio: int, near: int, far: int) -> Seq<i64> {
    let u = UNIT as int;
    let f = cos_fine(fov, 2 * STEPS) * u / sin_fine(fov, 2 * STEPS);
    seq![
        (f * u / aspect_ratio) as i64, 0, 0, 0,
        0, f as i64, 0, 0,
        0, 0, ((near + far) * u / (near - far)) as i64, (-UNIT) as i64,
        0, 0, (2 * near * far / (near - far)) as i64, 0,
    ]
}

/// A Euclidean quotient is never larger in size than its dividend.
proof fn lemma_quotient_magnitude(a: int, b: int)
    requires
        b != 0,
    ensures
        magnitude(a / b) <= magnitude(a),
{
    let q = a / b;
    let m = a % b;
    vstd::arithmetic::div_mod::lemma_fundamental_div_mod(a, b);
    if b > 0 {
        assert(magnitude(q) <= magnitude(a)) by (nonlinear_arith)
            requires
                a == b * q + m,
                0 <= m < b,
        ;
    } else {
        assert(magnitude(q) <= magnitude(a)) by (nonlinear_arith)
            requires
                a == b * q + m,
                0 <= m < -b,
        ;
    }
}

/// Euclidean division on machine integers, as `/` on `int` is.
pub fn quotient(a: i64, b: i64) -> (r: i64)
    requires
        b != 0,
        a > i64::MIN,
    ensures
        r == a as int / b as int,
{
    proof {
        lemma_quotient_magnitude(a as int, b as int);
    }
    match a.checked_div_euclid(b) {
        Some(q) => q,
        None => 0,
    }
}

/// The perspective matrix (see `perspective_matrix`), or nothing where it
/// is undefined: a field of view that is a whole number of half turns (no
/// tangent's inverse), a non-positive aspect ratio, or equal planes.
pub fn create_perspective_matrix(fov: i64, aspect_ratio: i64, near: i64, far: i64) -> (r: Option<
    Matrix,
>)
    requires
        aspect_ratio <= LIMIT,
        -PLANE_LIMIT <= near <= PLANE_LIMIT,
        -PLANE_LIMIT <= far <= PLANE_LIMIT,
    ensures
        r.is_some() <==> (sin_fine(fov as int, 2 * STEPS) != 0 && aspect_ratio > 0 && near != far),
        r.is_some() ==> r.unwrap()@ == perspective_matrix(
            fov as int,
            aspect_ratio as int,
            near as int,
            far as int,
        ),
{
    let s = sine_fine(fov, 2 * STEPS);
    let c = cosine_fine(fov, 2 * STEPS);
    if s == 0 || aspect_ratio <= 0 || near == far {
        return None;
    }
    proof {
        let u = UNIT as int;
        assert(-2000 * u * u <= c * u <= 2000 * u * u) by (nonlinear_arith)
            requires
                -u * 2000 <= c <= u * 2000,
                u > 0,
        ;
        lemma_quotient_magnitude(c * u, s as int);
    }
    let f = quotient(c * UNIT, s);
    proof {
        let u = UNIT as int;
        let p = PLANE_LIMIT as int;
        assert(magnitude(f * u) <= 2000 * u * u * u) by (nonlinear_arith)
            requires
                -2000 * u * u <= f <= 2000 * u * u,
                u > 0,
        ;
        lemma_quotient_magnitude(f * u, aspect_ratio as int);
        assert(magnitude((near + far) * u) <= 2 * p * u) by (nonlinear_arith)
            requires
                -p <= near <= p,
                -p <= far <= p,
                u > 0,
        ;
        lemma_quotient_magnitude((near + far) * u, (near - far) as int);
        assert(magnitude(2 * near * far) <= 2 * p * p) by (nonlinear_arith)
            requires
                -p <= near <= p,
                -p <= far <= p,
        ;
        lemma_quotient_magnitude(2 * near * far, (near - far) as int);
    }
    let r = [
        quotient(f * UNIT, aspect_ratio), 0, 0, 0,
        0, f, 0, 0,
        0, 0, quotient((near + far) * UNIT, near - far), -UNIT,
        0, 0, quotient(2 * near * far, near - far), 0,
    ];
    assert(r@ =~= perspective_matrix(fov as int, aspect_ratio as int, near as int, far as int));
    Some(r)
}

/// The placement matrix corrected for a viewport of `aspect_ratio` (width
/// over height, in units of `1 / UNIT`): on a wide viewport X shrinks by the
/// ratio, on a tall one Y does.
pub open spec fn aspect_corrected_matrix(
    rotation: int,
    scale: int,
    translation: Vec2,
    aspect_ratio: int,
) -> Seq<i64> {
    let u = UNIT as int;
    let c = cos_of(rotation);
    let sn = sin_of(rotation);
    let x_scale = if aspect_ratio > u {
        scale * u / aspect_ratio
    } else {
        scale
    };
    let y_scale = if aspect_ratio < u {
        scale * aspect_ratio / u
    } else {
        scale
    };
    let wide = if aspect_ratio > u {
        aspect_ratio
    } else {
        u
    };
    let narrow = if aspect_ratio < u {
        aspect_ratio
    } else {
        u
    };
    seq![
        (c * x_scale / u) as i64, (sn * x_scale / u) as i64, 0, 0,
        (-(sn * y_scale) / u) as i64, (c * y_scale / u) as i64, 0, 0,
        0, 0, UNIT, 0,
        (translation.x * u / wide) as i64, (translation.y * narrow / u) as i64, 0, UNIT,
    ]
}

/// `a · b / d` stays within `|a|` when `0 <= b <= d`.
proof fn lemma_scaled_down(a: int, b: int, d: int)
    requires
        0 <= b <= d,
        d > 0,
    ensures
        -magnitude(a) <= a * b / d <= magnitude(a),
{
    let m = magnitude(a);
    assert(-m * d <= a * b <= m * d) by (nonlinear_arith)
        requires
            0 <= b <= d,
            m == magnitude(a),
    ;
    vstd::arithmetic::div_mod::lemma_div_is_ordered(-m * d, a * b, d);
    vstd::arithmetic::div_mod::lemma_div_is_ordered(a * b, m * d, d);
    vstd::arithmetic::div_mod::lemma_div_multiples_vanish(m, d);
    vstd::arithmetic::div_mod::lemma_div_multiples_vanish(-m, d);
    assert(m * d == d * m) by (nonlinear_arith);
    assert(-m * d == d * (-m)) by (nonlinear_arith);
}

pub fn create_aspect_corrected_matrix(
    rotation: i64,
    scale: i64,
    translation: Vec2,
    aspect_ratio: i64,
) -> (r: Matrix)
    requires
        -LIMIT <= scale <= LIMIT,
        0 <= aspect_ratio <= LIMIT,
        -LIMIT <= translation.x <= LIMIT,
        -LIMIT <= translation.y <= LIMIT,
    ensures
        r@ == aspect_corrected_matrix(rotation as int, scale as int, translation, aspect_ratio as int),
{
    let c = cosine(rotation);
    let sn = sine(rotation);
    proof {
        assert(-LIMIT * UNIT <= scale * UNIT <= LIMIT * UNIT) by (nonlinear_arith)
            requires
                -LIMIT <= scale <= LIMIT,
        ;
        if aspect_ratio > UNIT {
            lemma_scaled_down(scale as int, UNIT as int, aspect_ratio as int);
        }
        assert(-LIMIT * UNIT <= scale * aspect_ratio <= LIMIT * UNIT || aspect_ratio >= UNIT) by (nonlinear_arith)
            requires
                -LIMIT <= scale <= LIMIT,
                0 <= aspect_ratio,
        ;
        if aspect_ratio < UNIT {
            lemma_scaled_down(scale as int, aspect_ratio as int, UNIT as int);
        }
    }
    let x_scale = if aspect_ratio > UNIT {
        div_floor(scale * UNIT, aspect_ratio)
    } else {
        scale
    };
    let y_scale = if aspect_ratio < UNIT {
        div_floor(scale * aspect_ratio, UNIT)
    } else {
        scale
    };
    let wide = if aspect_ratio > UNIT {
        aspect_ratio
    } else {
        UNIT
    };
    let narrow = if aspect_ratio < UNIT {
        aspect_ratio
    } else {
        UNIT
    };
    proof {
        let l = LIMIT as int;
        let u = UNIT as int;
        assert(-l * u <= c * x_scale <= l * u) by (nonlinear_arith)
            requires
                -u <= c <= u,
                -l <= x_scale <= l,
        ;
        assert(-l * u <= sn * x_scale <= l * u) by (nonlinear_arith)
            requires
                -u <= sn <= u,
                -l <= x_scale <= l,
        ;
        assert(-l * u <= c * y_scale <= l * u) by (nonlinear_arith)
            requires
                -u <= c <= u,
                -l <= y_scale <= l,
        ;
        assert(-l * u <= sn * y_scale <= l * u) by (nonlinear_arith)
            requires
                -u <= sn <= u,
                -l <= y_scale <= l,
        ;
        assert(-l * u <= translation.x * u <= l * u) by (nonlinear_arith)
            requires
                -l <= translation.x <= l,
                u > 0,
        ;
        assert(-l * u <= translation.y * narrow <= l * u) by (nonlinear_arith)
            requires
                -l <= translation.y <= l,
                0 <= narrow <= u,
        ;
    }
    let r = [
        div_floor(c * x_scale, UNIT), div_floor(sn * x_scale, UNIT), 0, 0,
        div_floor(-(sn * y_scale), UNIT), div_floor(c * y_scale, UNIT), 0, 0,
        0, 0, UNIT, 0,
        div_floor(translation.x * UNIT, wide), div_floor(translation.y * narrow, UNIT), 0, UNIT,
    ];
    assert(r@ =~= aspect_corrected_matrix(
        rotation as int,
        scale as int,
        translation,
        aspect_ratio as int,
    ));
    r
}

/// Entry `(i, j)` of the product `a · b` of two row-major matrices, rescaled
/// to units of `1 / UNIT` and rounded down.
pub open spec fn product_at(a: Seq<i64>, b: Seq<i64>, i: int, j: int) -> int {
    (a[4 * i] * b[j] + a[4 * i + 1] * b[4 + j] + a[4 * i + 2] * b[8 + j] + a[4 * i + 3] * b[12
        + j]) / (UNIT as int)
}

/// Every entry of `m` lies within `ENTRY_LIMIT` in size.
pub open spec fn entries_bounded(m: Seq<i64>) -> bool {
    forall|k: int| 0 <= k < m.len() ==> -ENTRY_LIMIT <= #[trigger] m[k] <= ENTRY_LIMIT
}

fn product_entry(a: &Matrix, b: &Matrix, i: usize, j: usize) -> (r: i64)
    requires
        i < 4,
        j < 4,
        entries_bounded(a@),
        entries_bounded(b@),
    ensures
        r == product_at(a@, b@, i as int, j as int),
{
    let ghost e = ENTRY_LIMIT as int;
    proof {
        assert forall|x: int, y: int| -e <= x <= e && -e <= y <= e implies -e * e <= #[trigger] (x
            * y) <= e * e by {
            assert(-e * e <= x * y <= e * e) by (nonlinear_arith)
                requires
                    -e <= x <= e,
                    -e <= y <= e,
            ;
        }
        assert(-e <= a@[4 * i as int] <= e);
        assert(-e <= a@[4 * i as int + 1] <= e);
        assert(-e <= a@[4 * i as int + 2] <= e);
        assert(-e <= a@[4 * i as int + 3] <= e);
        assert(-e <= b@[j as int] <= e);
        assert(-e <= b@[4 + j as int] <= e);
        assert(-e <= b@[8 + j as int] <= e);
        assert(-e <= b@[12 + j as int] <= e);
    }
    let sum = a[4 * i] * b[j] + a[4 * i + 1] * b[4 + j] + a[4 * i + 2] * b[8 + j] + a[4 * i + 3]
        * b[12 + j];
    div_floor(sum, UNIT)
}

/// The product `a · b` (standard composition, `a` applied after `b` on row vectors).
pub fn multiply_matrices(a: &Matrix, b: &Matrix) -> (r: Matrix)
    requires
        entries_bounded(a@),
        entries_bounded(b@),
    ensures
        forall|i: int, j: int|
            0 <= i < 4 && 0 <= j < 4 ==> #[trigger] r@[4 * i + j] == product_at(a@, b@, i, j),
{
    let r = [
        product_entry(a, b, 0, 0), product_entry(a, b, 0, 1), product_entry(a, b, 0, 2), product_entry(a, b, 0, 3),
        product_entry(a, b, 1, 0), product_entry(a, b, 1, 1), product_entry(a, b, 1, 2), product_entry(a, b, 1, 3),
        product_entry(a, b, 2, 0), product_entry(a, b, 2, 1), product_entry(a, b, 2, 2), product_entry(a, b, 2, 3),
        product_entry(a, b, 3, 0), product_entry(a, b, 3, 1), product_entry(a, b, 3, 2), product_entry(a, b, 3, 3)
    ];
    assert forall|i: int, j: int| 0 <= i < 4 && 0 <= j < 4 implies #[trigger] r@[4 * i + j]
        == product_at(a@, b@, i, j) by {
        assert(0 <= i < 4 && 0 <= j < 4);
    }
    r
}

} // verus!
