use vstd::prelude::*;
use vstd::string::StringExecFns;
use crate::texto::{decimal_entero, entero_a_texto};

verus! {

/// A category row: a fixed label that tasks reference by id.
#[derive(Debug)]
pub struct Categoria {
    pub id: i64,
    pub nombre: String,
}

/// A task as it is stored: flat, with the category as a foreign key.
#[derive(Debug)]
pub struct TareaFila {
    pub id: i64,
    pub titulo: String,
    pub descripcion: String,
    pub categoria_id: i64,
    pub completada: bool,
}

/// A task as the API shows it: the category embedded by value.
#[derive(Debug)]
pub struct Tarea {
    pub id: i64,
    pub titulo: String,
    pub descripcion: String,
    pub categoria: Categoria,
    pub completada: bool,
}

/// The payload of a create request.
#[derive(Debug)]
pub struct NuevaTarea {
    pub titulo: String,
    pub descripcion: String,
    pub categoria_id: i64,
}

/// The payload of a partial update: only the supplied fields change.
#[derive(Debug)]
pub struct ActualizarTarea {
    pub titulo: Option<String>,
    pub descripcion: Option<String>,
    pub categoria_id: Option<i64>,
    pub completada: Option<bool>,
}

/// Which text field a validation failure is about.
#[derive(Clone, Copy, PartialEq, Eq, Structural, Debug)]
pub enum Campo {
    Titulo,
    Descripcion,
}

/// The failure taxonomy: empty text, dangling category reference,
/// unknown task id, or a store-level failure.
#[derive(Clone, Copy, PartialEq, Eq, Structural, Debug)]
pub enum Fallo {
    Validacion { campo: Campo },
    Referencia { categoria_id: i64 },
    NoEncontrada { tarea_id: i64 },
    Persistencia,
}

/// The human-readable message of a failure, as the error envelope
/// carries it.
pub open spec fn texto_fallo(f: Fallo) -> Seq<char> {
    match f {
        Fallo::Validacion { campo: Campo::Titulo } => "El título no puede estar vacío"@,
        Fallo::Validacion { campo: Campo::Descripcion } => "La descripción no puede estar vacía"@,
        Fallo::Referencia { categoria_id } => "La categoría con ID "@ + decimal_entero(
            categoria_id as int,
        ) + " no existe"@,
        Fallo::NoEncontrada { tarea_id } => "La tarea con ID "@ + decimal_entero(tarea_id as int)
            + " no existe"@,
        Fallo::Persistencia => "Error de persistencia"@,
    }
}

impl Fallo {
    /// Writes this failure's message.
    pub fn mensaje(&self) -> (r: String)
        ensures
            r@ == texto_fallo(*self),
    {
        match *self {
            Fallo::Validacion { campo: Campo::Titulo } => String::from_str(
                "El título no puede estar vacío",
            ),
            Fallo::Validacion { campo: Campo::Descripcion } => String::from_str(
                "La descripción no puede estar vacía",
            ),
            Fallo::Referencia { categoria_id } => {
                let cifras = entero_a_texto(categoria_id);
                let r = String::from_str("La categoría con ID ").concat(cifras.as_str()).concat(
                    " no existe",
                );
                proof {
                    assert(r@ =~= texto_fallo(*self));
                }
                r
            },
            Fallo::NoEncontrada { tarea_id } => {
                let cifras = entero_a_texto(tarea_id);
                let r = String::from_str("La tarea con ID ").concat(cifras.as_str()).concat(
                    " no existe",
                );
                proof {
                    assert(r@ =~= texto_fallo(*self));
                }
                r
            },
            Fallo::Persistencia => String::from_str("Error de persistencia"),
        }
    }
}

/// Mathematical image of a category row.
pub ghost struct CategoriaVista {
    pub id: int,
    pub nombre: Seq<char>,
}

/// Mathematical image of a stored (flat) task row.
pub ghost struct TareaFilaVista {
    pub id: int,
    pub titulo: Seq<char>,
    pub descripcion: Seq<char>,
    pub categoria_id: int,
    pub completada: bool,
}

/// Mathematical image of a nested task, as responses carry it.
pub ghost struct TareaVista {
    pub id: int,
    pub titulo: Seq<char>,
    pub descripcion: Seq<char>,
    pub categoria: CategoriaVista,
    pub completada: bool,
}

/// Mathematical image of a create payload.
pub ghost struct NuevaVista {
    pub titulo: Seq<char>,
    pub descripcion: Seq<char>,
    pub categoria_id: int,
}

/// Mathematical image of a partial update: `None` for an omitted field.
pub ghost struct ActualizarVista {
    pub titulo: Option<Seq<char>>,
    pub descripcion: Option<Seq<char>>,
    pub categoria_id: Option<int>,
    pub completada: Option<bool>,
}

impl View for Categoria {
    type V = CategoriaVista;

    open spec fn view(&self) -> CategoriaVista {
        CategoriaVista { id: self.id as int, nombre: self.nombre@ }
    }
}

impl View for TareaFila {
    type V = TareaFilaVista;

    open spec fn view(&self) -> TareaFilaVista {
        TareaFilaVista {
            id: self.id as int,
            titulo: self.titulo@,
            descripcion: self.descripcion@,
            categoria_id: self.categoria_id as int,
            completada: self.completada,
        }
    }
}

impl View for Tarea {
    type V = TareaVista;

    open spec fn view(&self) -> TareaVista {
        TareaVista {
            id: self.id as int,
            titulo: self.titulo@,
            descripcion: self.descripcion@,
            categoria: self.categoria@,
            completada: self.completada,
        }
    }
}

impl View for NuevaTarea {
    type V = NuevaVista;

    open spec fn view(&self) -> NuevaVista {
        NuevaVista {
            titulo: self.titulo@,
            descripcion: self.descripcion@,
            categoria_id: self.categoria_id as int,
        }
    }
}

impl View for ActualizarTarea {
    type V = ActualizarVista;

    open spec fn view(&self) -> ActualizarVista {
        ActualizarVista {
            titulo: match self.titulo {
                Option::Some(s) => Option::Some(s@),
                Option::None => Option::None,
            },
            descripcion: match self.descripcion {
                Option::Some(s) => Option::Some(s@),
                Option::None => Option::None,
            },
            categoria_id: match self.categoria_id {
                Option::Some(c) => Option::Some(c as int),
                Option::None => Option::None,
            },
            completada: self.completada,
        }
    }
}

/// The nested shape that a flat row and its category map to.
pub open spec fn anidada(t: TareaFilaVista, c: CategoriaVista) -> TareaVista {
    TareaVista {
        id: t.id,
        titulo: t.titulo,
        descripcion: t.descripcion,
        categoria: c,
        completada: t.completada,
    }
}

/// The entity mapper: joins a flat row with its category row into the
/// nested shape. Pure; no side effects.
pub fn armar_tarea(fila: &TareaFila, cat: &Categoria) -> (r: Tarea)
    ensures
        r@ == anidada(fila@, cat@),
{
    Tarea {
        id: fila.id,
        titulo: fila.titulo.clone(),
        descripcion: fila.descripcion.clone(),
        categoria: Categoria { id: cat.id, nombre: cat.nombre.clone() },
        completada: fila.completada,
    }
}

/// A stored row after a partial update: supplied fields replaced,
/// omitted fields untouched, the id never changed.
pub open spec fn aplicar(t: TareaFilaVista, a: ActualizarVista) -> TareaFilaVista {
    TareaFilaVista {
        id: t.id,
        titulo: match a.titulo {
            Option::Some(s) => s,
            Option::None => t.titulo,
        },
        descripcion: match a.descripcion {
            Option::Some(s) => s,
            Option::None => t.descripcion,
        },
        categoria_id: match a.categoria_id {
            Option::Some(c) => c,
            Option::None => t.categoria_id,
        },
        completada: match a.completada {
            Option::Some(b) => b,
            Option::None => t.completada,
        },
    }
}

} // verus!
