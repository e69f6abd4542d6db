//! Streaming of an endless, procedurally generated terrain around a moving
//! observer.
//!
//! Space is tiled by cubic chunks. Each chunk turns a lattice of density
//! samples into a triangle mesh in bounded steps ([`chunk`]), and a streaming
//! manager decides each tick which chunks to build, draw and drop
//! ([`world`]).
//!
//! All quantities are exact integers. Positions are counted in position
//! units, 49152 to the world unit, so that a lattice cell measures 65536
//! units and a chunk twelve cells. Densities are counted in millionths. The
//! density field itself, the gamma curve of the colours and the graphics
//! device are the caller's business: a chunk says which lattice points it wants sampled and takes
//! the densities in, and a finished chunk hands out its vertices and
//! indices.
//!
//! The modules, from the ground up:
//!
//! - [`util`]: points, triangles, grid distances and the frustum test;
//! - [`color`]: the colour of the terrain, and [`draw`]: the vertex;
//! - [`ray`]: casting a ray at a triangle;
//! - [`marching_table`]: the triangulation of a cell for each corner mask, and
//!   [`table_laws`]: that every row lists exactly the cube edges that the
//!   surface crosses;
//! - [`lattice`]: the density lattice of a chunk and where the surface cuts
//!   its edges;
//! - [`mesh`]: the geometry of a chunk as a mathematical value,
//!   [`mesh_laws`]: how its parts hang together, and [`watertight`]: that
//!   neighbouring chunks meet vertex for vertex;
//! - [`query`]: which triangles lie near a position;
//! - [`chunk`]: the build of a chunk, step by step, and [`chunk_laws`]: that
//!   the steps add up to a single pass;
//! - [`sub`]: what the manager reads of the observer;
//! - [`gen_prio`], [`gen_order`], [`queue`]: the order in which chunks are
//!   generated;
//! - [`nearby`]: looking at the chunks around the observer;
//! - [`world`]: the streaming manager, and [`world_laws`]: that a look at
//!   the neighbourhood misses no chunk within the generation distance, that
//!   the most urgent chunk is built first, and when eviction is done.

pub mod chunk;
pub mod chunk_laws;
pub mod color;
pub mod draw;
pub mod gen_order;
pub mod gen_prio;
pub mod lattice;
pub mod marching_table;
pub mod mesh;
pub mod mesh_laws;
pub mod nearby;
pub mod query;
pub mod queue;
pub mod ray;
pub mod sub;
pub mod table_laws;
pub mod util;
pub mod watertight;
pub mod world;
pub mod world_laws;
