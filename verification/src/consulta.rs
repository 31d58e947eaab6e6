use vstd::prelude::*;
use vstd::string::StringExecFns;
use crate::modelo::{ActualizarTarea, ActualizarVista};

verus! {

/// A value bound into a parameterized statement, never interpolated
/// into its text.
pub enum Parametro {
    Texto(String),
    Entero(i64),
    Logico(bool),
}

/// Mathematical image of a bound parameter.
pub ghost enum ParametroVista {
    Texto(Seq<char>),
    Entero(int),
    Logico(bool),
}

impl View for Parametro {
    type V = ParametroVista;

    open spec fn view(&self) -> ParametroVista {
        match self {
            Parametro::Texto(s) => ParametroVista::Texto(s@),
            Parametro::Entero(n) => ParametroVista::Entero(*n as int),
            Parametro::Logico(b) => ParametroVista::Logico(*b),
        }
    }
}

pub open spec fn vistas_parametros(ps: Seq<Parametro>) -> Seq<ParametroVista> {
    ps.map_values(|p: Parametro| p@)
}

/// Whether a partial update supplies at least one field.
pub open spec fn hay_campos(c: ActualizarVista) -> bool {
    ||| c.titulo matches Option::Some(_)
    ||| c.descripcion matches Option::Some(_)
    ||| c.categoria_id matches Option::Some(_)
    ||| c.completada matches Option::Some(_)
}

pub open spec fn clausula_titulo(c: ActualizarVista) -> Seq<(Seq<char>, ParametroVista)> {
    match c.titulo {
        Option::Some(s) => seq![("titulo = ?"@, ParametroVista::Texto(s))],
        Option::None => Seq::empty(),
    }
}

pub open spec fn clausula_descripcion(c: ActualizarVista) -> Seq<(Seq<char>, ParametroVista)> {
    match c.descripcion {
        Option::Some(s) => seq![("descripcion = ?"@, ParametroVista::Texto(s))],
        Option::None => Seq::empty(),
    }
}

pub open spec fn clausula_categoria(c: ActualizarVista) -> Seq<(Seq<char>, ParametroVista)> {
    match c.categoria_id {
        Option::Some(n) => seq![("categoria_id = ?"@, ParametroVista::Entero(n))],
        Option::None => Seq::empty(),
    }
}

pub open spec fn clausula_completada(c: ActualizarVista) -> Seq<(Seq<char>, ParametroVista)> {
    match c.completada {
        Option::Some(b) => seq![("completada = ?"@, ParametroVista::Logico(b))],
        Option::None => Seq::empty(),
    }
}

/// The clause list of a partial update, in the fixed column order: one
/// `column = ?` clause and one bound value per supplied field.
pub open spec fn clausulas(c: ActualizarVista) -> Seq<(Seq<char>, ParametroVista)> {
    clausula_titulo(c) + clausula_descripcion(c) + clausula_categoria(c) + clausula_completada(c)
}

pub open spec fn nombres(cls: Seq<(Seq<char>, ParametroVista)>) -> Seq<Seq<char>> {
    cls.map_values(|p: (Seq<char>, ParametroVista)| p.0)
}

pub open spec fn valores(cls: Seq<(Seq<char>, ParametroVista)>) -> Seq<ParametroVista> {
    cls.map_values(|p: (Seq<char>, ParametroVista)| p.1)
}

/// The parts joined with the separator between elements only: never
/// before the first, never after the last.
pub open spec fn unir(partes: Seq<Seq<char>>, separador: Seq<char>) -> Seq<char>
    decreases partes.len(),
{
    if partes.len() == 0 {
        Seq::empty()
    } else if partes.len() == 1 {
        partes[0]
    } else {
        partes[0] + separador + unir(partes.drop_first(), separador)
    }
}

/// Appending one more part appends one separator and the part, or just
/// the part when the list was empty.
proof fn lema_unir_push(partes: Seq<Seq<char>>, separador: Seq<char>, x: Seq<char>)
    ensures
        unir(partes.push(x), separador) == if partes.len() == 0 {
            x
        } else {
            unir(partes, separador) + separador + x
        },
    decreases partes.len(),
{
    if partes.len() == 0 {
        assert(unir(partes.push(x), separador) =~= x);
    } else if partes.len() == 1 {
        assert(partes.push(x).drop_first() =~= seq![x]);
        assert(seq![x][0] == x);
        assert(unir(seq![x], separador) == x);
        assert(partes.push(x)[0] == partes[0]);
        assert(unir(partes.push(x), separador) == partes.push(x)[0] + separador + unir(
            partes.push(x).drop_first(),
            separador,
        ));
        assert(unir(partes, separador) == partes[0]);
    } else {
        assert(partes.push(x).drop_first() =~= partes.drop_first().push(x));
        lema_unir_push(partes.drop_first(), separador, x);
        assert(unir(partes.push(x), separador) =~= unir(partes, separador) + separador + x);
    }
}

/// The text of the UPDATE statement for this field subset: the clause
/// list joined with a separator between elements, the target row
/// selected by id, all values bound as parameters.
pub open spec fn texto_update(c: ActualizarVista) -> Seq<char> {
    "UPDATE tareas SET "@ + unir(nombres(clausulas(c)), ", "@) + " WHERE id = ?"@
}

/// The bound values of the UPDATE statement, in clause order, the
/// target id last.
pub open spec fn parametros_update(c: ActualizarVista, id: int) -> Seq<ParametroVista> {
    valores(clausulas(c)).push(ParametroVista::Entero(id))
}

/// The statement text depends only on which fields are supplied, never
/// on the supplied values: values travel only as bound parameters.
pub proof fn ley_texto_sin_valores(c1: ActualizarVista, c2: ActualizarVista)
    requires
        (c1.titulo matches Option::Some(_)) == (c2.titulo matches Option::Some(_)),
        (c1.descripcion matches Option::Some(_)) == (c2.descripcion matches Option::Some(_)),
        (c1.categoria_id matches Option::Some(_)) == (c2.categoria_id matches Option::Some(_)),
        (c1.completada matches Option::Some(_)) == (c2.completada matches Option::Some(_)),
    ensures
        texto_update(c1) == texto_update(c2),
{
    assert(nombres(clausulas(c1)) =~= nombres(clausulas(c2)));
}

/// Builds the UPDATE statement for the supplied field subset, or
/// nothing when the subset is empty (an empty update is a no-op, and a
/// statement without clauses would not be well formed).
#[verifier::rlimit(50)]
pub fn construir_update(cambio: &ActualizarTarea, id: i64) -> (r: Option<(String, Vec<Parametro>)>)
    ensures
        ({
            let c = cambio@;
            match r {
                Option::Some(par) => {
                    &&& hay_campos(c)
                    &&& par.0@ == texto_update(c)
                    &&& vistas_parametros(par.1@) == parametros_update(c, id as int)
                },
                Option::None => !hay_campos(c),
            }
        }),
{
    let ghost c = cambio@;
    let mut sql = String::from_str("UPDATE tareas SET ");
    let mut params: Vec<Parametro> = Vec::new();
    let mut primero = true;
    let ghost mut hechas: Seq<(Seq<char>, ParametroVista)> = Seq::empty();
    proof {
        assert(vistas_parametros(params@) =~= valores(hechas));
        assert(sql@ =~= "UPDATE tareas SET "@ + unir(nombres(hechas), ", "@));
    }
    if let Option::Some(s) = &cambio.titulo {
        if !primero {
            sql.append(", ");
        }
        sql.append("titulo = ?");
        params.push(Parametro::Texto(s.clone()));
        primero = false;
        proof {
            let previas = hechas;
            hechas = hechas.push(("titulo = ?"@, ParametroVista::Texto(s@)));
            lema_unir_push(nombres(previas), ", "@, "titulo = ?"@);
            assert(nombres(hechas) =~= nombres(previas).push("titulo = ?"@));
            assert(valores(hechas) =~= valores(previas).push(ParametroVista::Texto(s@)));
            assert(vistas_parametros(params@) =~= valores(hechas));
            assert(sql@ =~= "UPDATE tareas SET "@ + unir(nombres(hechas), ", "@));
        }
    }
    if let Option::Some(s) = &cambio.descripcion {
        if !primero {
            sql.append(", ");
        }
        sql.append("descripcion = ?");
        params.push(Parametro::Texto(s.clone()));
        primero = false;
        proof {
            let previas = hechas;
            hechas = hechas.push(("descripcion = ?"@, ParametroVista::Texto(s@)));
            lema_unir_push(nombres(previas), ", "@, "descripcion = ?"@);
            assert(nombres(hechas) =~= nombres(previas).push("descripcion = ?"@));
            assert(valores(hechas) =~= valores(previas).push(ParametroVista::Texto(s@)));
            assert(vistas_parametros(params@) =~= valores(hechas));
            assert(sql@ =~= "UPDATE tareas SET "@ + unir(nombres(hechas), ", "@));
        }
    }
    if let Option::Some(n) = cambio.categoria_id {
        if !primero {
            sql.append(", ");
        }
        sql.append("categoria_id = ?");
        params.push(Parametro::Entero(n));
        primero = false;
        proof {
            let previas = hechas;
            hechas = hechas.push(("categoria_id = ?"@, ParametroVista::Entero(n as int)));
            lema_unir_push(nombres(previas), ", "@, "categoria_id = ?"@);
            assert(nombres(hechas) =~= nombres(previas).push("categoria_id = ?"@));
            assert(valores(hechas) =~= valores(previas).push(ParametroVista::Entero(n as int)));
            assert(vistas_parametros(params@) =~= valores(hechas));
            assert(sql@ =~= "UPDATE tareas SET "@ + unir(nombres(hechas), ", "@));
        }
    }
    if let Option::Some(b) = cambio.completada {
        if !primero {
            sql.append(", ");
        }
        sql.append("completada = ?");
        params.push(Parametro::Logico(b));
        primero = false;
        proof {
            let previas = hechas;
            hechas = hechas.push(("completada = ?"@, ParametroVista::Logico(b)));
            lema_unir_push(nombres(previas), ", "@, "completada = ?"@);
            assert(nombres(hechas) =~= nombres(previas).push("completada = ?"@));
            assert(valores(hechas) =~= valores(previas).push(ParametroVista::Logico(b)));
            assert(vistas_parametros(params@) =~= valores(hechas));
            assert(sql@ =~= "UPDATE tareas SET "@ + unir(nombres(hechas), ", "@));
        }
    }
    proof {
        assert(hechas =~= clausulas(c));
    }
    if primero {
        return Option::None;
    }
    sql.append(" WHERE id = ?");
    params.push(Parametro::Entero(id));
    proof {
        assert(sql@ =~= texto_update(c));
        assert(vistas_parametros(params@) =~= parametros_update(c, id as int));
    }
    Option::Some((sql, params))
}

} // verus!
