pub mod almacen;
pub mod consulta;
pub mod leyes;
pub mod modelo;
pub mod texto;
