use vstd::prelude::*;
use crate::geometry::{LIMIT, div_floor};
use crate::trig::{UNIT, sin_of, cos_of, sine, cosine};

verus! {

/// The most segments a sphere may have along either direction.
pub const MAX_SEGMENTS: u32 = 1024;

/// How a vertex list is to be joined when drawn.
#[derive(Clone, Copy, Debug, PartialEq, Eq, Structural)]
pub enum DrawMode {
    Triangles,
    TriangleFan,
    LineLoop,
    LineStrip,
}

/// The triangle's corners, three coordinates each, in units of `1 / UNIT`.
pub open spec fn triangle_vertices() -> Seq<i64> {
    seq![0i64, 5000, 0, -5000i64, -5000i64, 0, 5000, -5000i64, 0]
}

/// The square's corners, counter-clockwise from bottom left.
pub open spec fn rectangle_vertices() -> Seq<i64> {
    seq![-5000i64, -5000i64, 0, 5000, -5000i64, 0, 5000, 5000, 0, -5000i64, 5000, 0]
}

/// A triangle centred on the origin, half a unit in each direction.
pub struct Triangle {
    vertices: Vec<i64>,
}

impl View for Triangle {
    type V = Seq<i64>;

    /// The flat list of vertex coordinates, three per vertex.
    closed spec fn view(&self) -> Seq<i64> {
        self.vertices@
    }
}

/// A unit square centred on the origin.
pub struct Rectangle {
    vertices: Vec<i64>,
}

impl View for Rectangle {
    type V = Seq<i64>;

    /// The flat list of vertex coordinates, three per vertex.
    closed spec fn view(&self) -> Seq<i64> {
        self.vertices@
    }
}

/// A sphere tessellated into latitude and longitude bands, two triangles per cell.
pub struct Sphere {
    vertices: Vec<i64>,
}

impl View for Sphere {
    type V = Seq<i64>;

    /// The flat list of vertex coordinates, three per vertex.
    closed spec fn view(&self) -> Seq<i64> {
        self.vertices@
    }
}

impl Triangle {
    pub fn new() -> (r: Triangle)
        ensures
            r@ == triangle_vertices(),
    {
        let vertices = vec![0, 5000, 0, -5000, -5000, 0, 5000, -5000, 0];
        assert(vertices@ =~= triangle_vertices());
        Triangle { vertices }
    }

    pub fn get_vertices(&self) -> (r: &[i64])
        ensures
            r@ == self@,
    {
        self.vertices.as_slice()
    }

    pub fn get_vertex_count(&self) -> (r: i32)
        ensures
            r == 3,
    {
        3
    }

    /// A closed outline in wireframe mode, a filled triangle otherwise.
    pub fn get_draw_mode(&self, wireframe: bool) -> (r: DrawMode)
        ensures
            r == (if wireframe {
                DrawMode::LineLoop
            } else {
                DrawMode::Triangles
            }),
    {
        if wireframe {
            DrawMode::LineLoop
        } else {
            DrawMode::Triangles
        }
    }
}

impl Rectangle {
    pub fn new() -> (r: Rectangle)
        ensures
            r@ == rectangle_vertices(),
    {
        let vertices = vec![-5000, -5000, 0, 5000, -5000, 0, 5000, 5000, 0, -5000, 5000, 0];
        assert(vertices@ =~= rectangle_vertices());
        Rectangle { vertices }
    }

    pub fn get_vertices(&self) -> (r: &[i64])
        ensures
            r@ == self@,
    {
        self.vertices.as_slice()
    }

    pub fn get_vertex_count(&self) -> (r: i32)
        ensures
            r == 4,
    {
        4
    }

    /// A closed outline in wireframe mode, a fan of two triangles otherwise.
    pub fn get_draw_mode(&self, wireframe: bool) -> (r: DrawMode)
        ensures
            r == (if wireframe {
                DrawMode::LineLoop
            } else {
                DrawMode::TriangleFan
            }),
    {
        if wireframe {
            DrawMode::LineLoop
        } else {
            DrawMode::TriangleFan
        }
    }
}

/// Polar angle of latitude line `lat` of `segments`, in millidegrees.
pub open spec fn latitude(lat: int, segments: int) -> int {
    lat * 180_000 / segments
}

/// Azimuth of longitude line `lon` of `segments`, in millidegrees.
pub open spec fn longitude(lon: int, segments: int) -> int {
    lon * 360_000 / segments
}

/// The point of a sphere of `radius` at polar angle `theta` and azimuth `phi`.
pub open spec fn sphere_vertex(radius: int, theta: int, phi: int) -> Seq<i64> {
    let ring = radius * sin_of(theta) / UNIT as int;
    seq![
        (ring * cos_of(phi) / UNIT as int) as i64,
        (radius * cos_of(theta) / UNIT as int) as i64,
        (ring * sin_of(phi) / UNIT as int) as i64,
    ]
}

/// The two triangles of cell `(lat, lon)`, six vertices in all.
pub open spec fn sphere_cell(radius: int, lats: int, lons: int, lat: int, lon: int) -> Seq<i64> {
    let t1 = latitude(lat, lats);
    let t2 = latitude(lat + 1, lats);
    let p1 = longitude(lon, lons);
    let p2 = longitude(lon + 1, lons);
    sphere_vertex(radius, t1, p1) + sphere_vertex(radius, t2, p1) + sphere_vertex(radius, t1, p2)
        + sphere_vertex(radius, t2, p1) + sphere_vertex(radius, t2, p2) + sphere_vertex(
        radius,
        t1,
        p2,
    )
}

/// The vertices of the first `count` cells, latitude by latitude.
pub open spec fn sphere_prefix(radius: int, lats: int, lons: int, count: nat) -> Seq<i64>
    decreases count,
{
    if count == 0 {
        seq![]
    } else {
        let k = (count - 1) as int;
        sphere_prefix(radius, lats, lons, (count - 1) as nat) + sphere_cell(
            radius,
            lats,
            lons,
            k / lons,
            k % lons,
        )
    }
}

proof fn lemma_sphere_prefix_len(radius: int, lats: int, lons: int, count: nat)
    ensures
        sphere_prefix(radius, lats, lons, count).len() == 18 * count,
    decreases count,
{
    if count > 0 {
        lemma_sphere_prefix_len(radius, lats, lons, (count - 1) as nat);
    }
}

fn push_sphere_vertex(vertices: &mut Vec<i64>, radius: i64, theta: i64, phi: i64)
    requires
        0 <= radius <= LIMIT,
    ensures
        final(vertices)@ == old(vertices)@ + sphere_vertex(radius as int, theta as int, phi as int),
{
    let st = sine(theta);
    let ct = cosine(theta);
    let sp = sine(phi);
    let cp = cosine(phi);
    proof {
        let l = LIMIT as int;
        let u = UNIT as int;
        assert(-l * u <= radius * st <= l * u) by (nonlinear_arith)
            requires
                0 <= radius <= l,
                -u <= st <= u,
        ;
        assert(-l * u <= radius * ct <= l * u) by (nonlinear_arith)
            requires
                0 <= radius <= l,
                -u <= ct <= u,
        ;
        vstd::arithmetic::div_mod::lemma_div_is_ordered(-l * u, radius * st, u);
        vstd::arithmetic::div_mod::lemma_div_is_ordered(radius * st, l * u, u);
        vstd::arithmetic::div_mod::lemma_div_multiples_vanish(l, u);
        vstd::arithmetic::div_mod::lemma_div_multiples_vanish(-l, u);
        assert(l * u == u * l);
        assert(-l * u == u * (-l));
    }
    let ring = div_floor(radius * st, UNIT);
    proof {
        let l = LIMIT as int;
        let u = UNIT as int;
        assert(-l * u <= ring * cp <= l * u) by (nonlinear_arith)
            requires
                -l <= ring <= l,
                -u <= cp <= u,
        ;
        assert(-l * u <= ring * sp <= l * u) by (nonlinear_arith)
            requires
                -l <= ring <= l,
                -u <= sp <= u,
        ;
    }
    vertices.push(div_floor(ring * cp, UNIT));
    vertices.push(div_floor(radius * ct, UNIT));
    vertices.push(div_floor(ring * sp, UNIT));
    assert(final(vertices)@ =~= old(vertices)@ + sphere_vertex(radius as int, theta as int, phi as int));
}

fn push_sphere_cell(
    vertices: &mut Vec<i64>,
    radius: i64,
    lats: u32,
    lons: u32,
    lat: u32,
    lon: u32,
)
    requires
        0 <= radius <= LIMIT,
        0 < lats <= MAX_SEGMENTS,
        0 < lons <= MAX_SEGMENTS,
        lat < lats,
        lon < lons,
    ensures
        final(vertices)@ == old(vertices)@ + sphere_cell(
            radius as int,
            lats as int,
            lons as int,
            lat as int,
            lon as int,
        ),
{
    let theta1 = div_floor(lat as i64 * 180_000, lats as i64);
    let theta2 = div_floor((lat as i64 + 1) * 180_000, lats as i64);
    let phi1 = div_floor(lon as i64 * 360_000, lons as i64);
    let phi2 = div_floor((lon as i64 + 1) * 360_000, lons as i64);
    push_sphere_vertex(vertices, radius, theta1, phi1);
    push_sphere_vertex(vertices, radius, theta2, phi1);
    push_sphere_vertex(vertices, radius, theta1, phi2);
    push_sphere_vertex(vertices, radius, theta2, phi1);
    push_sphere_vertex(vertices, radius, theta2, phi2);
    push_sphere_vertex(vertices, radius, theta1, phi2);
    assert(final(vertices)@ =~= old(vertices)@ + sphere_cell(
        radius as int,
        lats as int,
        lons as int,
        lat as int,
        lon as int,
    ));
}

impl Sphere {
    /// Tessellates a sphere of `radius` into `latitude_segments` bands of
    /// `longitude_segments` cells, two triangles per cell, with no index list.
    pub fn new(radius: i64, latitude_segments: u32, longitude_segments: u32) -> (r: Sphere)
        requires
            0 <= radius <= LIMIT,
            latitude_segments <= MAX_SEGMENTS,
            longitude_segments <= MAX_SEGMENTS,
        ensures
            r@ == sphere_prefix(
                radius as int,
                latitude_segments as int,
                longitude_segments as int,
                (latitude_segments * longitude_segments) as nat,
            ),
            r@.len() == 18 * latitude_segments * longitude_segments,
    {
        let ghost lats = latitude_segments as int;
        let ghost lons = longitude_segments as int;
        let mut vertices: Vec<i64> = Vec::new();
        let mut lat: u32 = 0;
        while lat < latitude_segments
            invariant
                0 <= lat <= latitude_segments <= MAX_SEGMENTS,
                longitude_segments <= MAX_SEGMENTS,
                lats == latitude_segments,
                lons == longitude_segments,
                0 <= radius <= LIMIT,
                vertices@ == sphere_prefix(radius as int, lats, lons, (lat * lons) as nat),
            decreases latitude_segments - lat,
        {
            let mut lon: u32 = 0;
            while lon < longitude_segments
                invariant
                    0 <= lat < latitude_segments <= MAX_SEGMENTS,
                    0 <= lon <= longitude_segments <= MAX_SEGMENTS,
                    lats == latitude_segments,
                    lons == longitude_segments,
                    0 <= radius <= LIMIT,
                    vertices@ == sphere_prefix(radius as int, lats, lons, (lat * lons + lon) as nat),
                decreases longitude_segments - lon,
            {
                push_sphere_cell(&mut vertices, radius, latitude_segments, longitude_segments, lat, lon);
                proof {
                    let k = lat * lons + lon;
                    assert(0 <= k) by (nonlinear_arith)
                        requires
                            lat >= 0,
                            lons >= 0,
                            lon >= 0,
                            k == lat * lons + lon,
                    ;
                    vstd::arithmetic::div_mod::lemma_fundamental_div_mod_converse(
                        k,
                        lons,
                        lat as int,
                        lon as int,
                    );
                    assert(k == lons * lat + lon) by (nonlinear_arith)
                        requires
                            k == lat * lons + lon,
                    ;
                    assert(((k + 1) as nat - 1) as int == k);
                }
                lon += 1;
            }
            proof {
                assert(lat * lons + lons == (lat + 1) * lons) by (nonlinear_arith);
            }
            lat += 1;
        }
        proof {
            lemma_sphere_prefix_len(radius as int, lats, lons, (lats * lons) as nat);
            assert(lats * lons <= 1024 * 1024) by (nonlinear_arith)
                requires
                    0 <= lats <= 1024,
                    0 <= lons <= 1024,
            ;
            assert(18 * (lats * lons) == 18 * lats * lons) by (nonlinear_arith);
        }
        Sphere { vertices }
    }

    pub fn get_vertices(&self) -> (r: &[i64])
        ensures
            r@ == self@,
    {
        self.vertices.as_slice()
    }

    /// One vertex per three coordinates.
    pub fn get_vertex_count(&self) -> (r: i32)
        requires
            self@.len() <= 18 * MAX_SEGMENTS * MAX_SEGMENTS,
        ensures
            r == self@.len() / 3,
    {
        (self.vertices.len() / 3) as i32
    }

    /// A strip of lines in wireframe mode, filled triangles otherwise.
    pub fn get_draw_mode(&self, wireframe: bool) -> (r: DrawMode)
        ensures
            r == (if wireframe {
                DrawMode::LineStrip
            } else {
                DrawMode::Triangles
            }),
    {
        if wireframe {
            DrawMode::LineStrip
        } else {
            DrawMode::Triangles
        }
    }
}

} // verus!
