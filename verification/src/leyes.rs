use vstd::prelude::*;
use crate::almacen::{
    anidar_seq, bien_formada, categoria_por_id, fila_creada, indice_tarea, listado, orden_listado, ordenadas_por_nombre,
    seleccion_desc, sembrada, tarea_por_id, tiene_categoria, tiene_nombre, tiene_tarea,
    tras_actualizar, tras_borrar, tras_crear, AlmacenVista,
};
use crate::modelo::{anidada, aplicar, ActualizarVista, CategoriaVista, NuevaVista, TareaFilaVista};
use crate::texto::{es_blanco, lema_lex_transitiva, lex_le};

verus! {

/// Every row that a selection keeps comes from the selected sequence.
proof fn lema_seleccion_contenida(ts: Seq<TareaFilaVista>, completada: bool)
    ensures
        forall|k: int|
            0 <= k < seleccion_desc(ts, completada).len() ==> exists|j: int|
                0 <= j < ts.len() && #[trigger] seleccion_desc(ts, completada)[k] == ts[j],
    decreases ts.len(),
{
    if ts.len() != 0 {
        lema_seleccion_contenida(ts.drop_last(), completada);
        assert forall|k: int| 0 <= k < seleccion_desc(ts, completada).len() implies exists|j: int|
            0 <= j < ts.len() && #[trigger] seleccion_desc(ts, completada)[k] == ts[j] by {
            let sel = seleccion_desc(ts, completada);
            let resto = seleccion_desc(ts.drop_last(), completada);
            if ts.last().completada == completada {
                if k == 0 {
                    assert(sel[k] == ts[ts.len() - 1]);
                } else {
                    let j = choose|j: int|
                        0 <= j < ts.drop_last().len() && resto[k - 1] == ts.drop_last()[j];
                    assert(sel[k] == ts[j]);
                }
            } else {
                let j = choose|j: int|
                    0 <= j < ts.drop_last().len() && resto[k] == ts.drop_last()[j];
                assert(sel[k] == ts[j]);
            }
        };
    }
}

/// A name precedes the names of all later rows, one step at a time.
proof fn lema_cadena_de_nombres(cs: Seq<CategoriaVista>, i: int, j: int)
    requires
        ordenadas_por_nombre(cs),
        0 <= i < j < cs.len(),
    ensures
        lex_le(cs[i].nombre, cs[j].nombre),
    decreases j - i,
{
    if j != i + 1 {
        lema_cadena_de_nombres(cs, i, j - 1);
        lema_lex_transitiva(cs[i].nombre, cs[j - 1].nombre, cs[j].nombre);
    }
}

/// In a category listing sorted by name, every earlier name precedes
/// every later one, however far apart the rows stand.
pub proof fn ley_orden_categorias(cs: Seq<CategoriaVista>)
    requires
        ordenadas_por_nombre(cs),
    ensures
        forall|i: int, j: int| #![trigger cs[i], cs[j]]
            0 <= i < j < cs.len() ==> lex_le(cs[i].nombre, cs[j].nombre),
{
    assert forall|i: int, j: int| #![trigger cs[i], cs[j]] 0 <= i < j < cs.len() implies lex_le(
        cs[i].nombre,
        cs[j].nombre,
    ) by {
        lema_cadena_de_nombres(cs, i, j);
    };
}

/// Under ascending ids, a selection has exactly the rows with its flag,
/// with ids strictly descending.
proof fn lema_seleccion_ordenada(ts: Seq<TareaFilaVista>, completada: bool)
    requires
        forall|i: int, j: int| #![trigger ts[i], ts[j]]
            0 <= i < j < ts.len() ==> ts[i].id < ts[j].id,
    ensures
        forall|k: int|
            0 <= k < seleccion_desc(ts, completada).len() ==> (#[trigger] seleccion_desc(
                ts,
                completada,
            )[k]).completada == completada,
        forall|k: int|
            0 <= k && k + 1 < seleccion_desc(ts, completada).len() ==> (#[trigger] seleccion_desc(
                ts,
                completada,
            )[k]).id > seleccion_desc(ts, completada)[k + 1].id,
    decreases ts.len(),
{
    if ts.len() != 0 {
        let cola = ts.drop_last();
        lema_seleccion_ordenada(cola, completada);
        lema_seleccion_contenida(cola, completada);
        let sel = seleccion_desc(ts, completada);
        let resto = seleccion_desc(cola, completada);
        if ts.last().completada == completada {
            assert forall|k: int| 0 <= k && k + 1 < sel.len() implies (#[trigger] sel[k]).id
                > sel[k + 1].id by {
                if k == 0 {
                    assert(sel[0] == ts.last());
                    assert(sel[1] == resto[0]);
                    if resto.len() > 0 {
                        let j = choose|j: int| 0 <= j < cola.len() && resto[0] == cola[j];
                        assert(cola[j] == ts[j]);
                        assert(ts[j].id < ts[ts.len() - 1].id);
                    }
                } else {
                    assert(sel[k] == resto[k - 1] && sel[k + 1] == resto[k]);
                }
            };
        }
    }
}

/// The order a listing comes back in: every incomplete row precedes
/// every completed one, and within each group ids strictly descend.
pub proof fn ley_orden_listado(ts: Seq<TareaFilaVista>)
    requires
        forall|i: int, j: int| #![trigger ts[i], ts[j]]
            0 <= i < j < ts.len() ==> ts[i].id < ts[j].id,
    ensures
        ({
            let orden = orden_listado(ts);
            let pendientes = seleccion_desc(ts, false).len() as int;
            &&& forall|k: int|
                0 <= k < orden.len() ==> (#[trigger] orden[k]).completada == (k >= pendientes)
            &&& forall|k: int|
                0 <= k && k + 1 < pendientes ==> (#[trigger] orden[k]).id > orden[k + 1].id
            &&& forall|k: int|
                pendientes <= k && k + 1 < orden.len() ==> (#[trigger] orden[k]).id > orden[k
                    + 1].id
        }),
{
    lema_seleccion_ordenada(ts, false);
    lema_seleccion_ordenada(ts, true);
    let orden = orden_listado(ts);
    let sin_hacer = seleccion_desc(ts, false);
    let hechas = seleccion_desc(ts, true);
    assert forall|k: int| 0 <= k < orden.len() implies (#[trigger] orden[k]).completada == (k
        >= sin_hacer.len()) by {
        if k < sin_hacer.len() {
            assert(orden[k] == sin_hacer[k]);
        } else {
            assert(orden[k] == hechas[k - sin_hacer.len()]);
        }
    };
    assert forall|k: int| 0 <= k && k + 1 < sin_hacer.len() as int implies (#[trigger] orden[k]).id
        > orden[k + 1].id by {
        assert(orden[k] == sin_hacer[k] && orden[k + 1] == sin_hacer[k + 1]);
    };
    assert forall|k: int|
        sin_hacer.len() as int <= k && k + 1 < orden.len() implies (#[trigger] orden[k]).id
        > orden[k + 1].id by {
        assert(orden[k] == hechas[k - sin_hacer.len()]);
        assert(orden[k + 1] == hechas[k + 1 - sin_hacer.len()]);
    };
}

/// Seeding a category name twice is the same as seeding it once: the
/// second pass finds the name present and changes nothing.
pub proof fn ley_siembra_idempotente(v: AlmacenVista, nombre: Seq<char>)
    ensures
        sembrada(sembrada(v, nombre), nombre) == sembrada(v, nombre),
{
    let v2 = sembrada(v, nombre);
    if !tiene_nombre(v.categorias, nombre) {
        assert(v2.categorias[v.categorias.len() as int].nombre == nombre);
        assert(tiene_nombre(v2.categorias, nombre));
    }
}

/// Creating a valid task and then listing shows the new task first in
/// the listing — incomplete, with the given fields, under the fresh id
/// — and the rest of the listing exactly as it was: one new task, no
/// other change.
pub proof fn ley_crear_y_listar(v: AlmacenVista, n: NuevaVista)
    requires
        bien_formada(v),
        !es_blanco(n.titulo),
        !es_blanco(n.descripcion),
        tiene_categoria(v.categorias, n.categoria_id),
    ensures
        listado(tras_crear(v, n)) == seq![
            anidada(fila_creada(v, n), categoria_por_id(v.categorias, n.categoria_id)),
        ] + listado(v),
        listado(tras_crear(v, n))[0].id == v.siguiente_tarea,
        listado(tras_crear(v, n))[0].completada == false,
        forall|k: int|
            1 <= k < listado(tras_crear(v, n)).len() ==> #[trigger] listado(tras_crear(v, n))[k].id
                != v.siguiente_tarea,
{
    let v2 = tras_crear(v, n);
    let fila = fila_creada(v, n);
    assert(v2.tareas.drop_last() =~= v.tareas);
    assert(v2.tareas.last() == fila);
    assert(seleccion_desc(v2.tareas, false) == seq![fila] + seleccion_desc(v.tareas, false));
    assert(seleccion_desc(v2.tareas, true) == seleccion_desc(v.tareas, true));
    assert(orden_listado(v2.tareas) =~= seq![fila] + orden_listado(v.tareas));
    assert(listado(v2) =~= anidar_seq(v2, seq![fila] + orden_listado(v.tareas)));
    assert(listado(v2) =~= seq![
        anidada(fila, categoria_por_id(v.categorias, n.categoria_id)),
    ] + listado(v));
    lema_seleccion_contenida(v.tareas, false);
    lema_seleccion_contenida(v.tareas, true);
    assert forall|k: int| 1 <= k < listado(v2).len() implies #[trigger] listado(v2)[k].id
        != v.siguiente_tarea by {
        let orden = orden_listado(v.tareas);
        assert(listado(v2)[k] == anidada(
            orden[k - 1],
            categoria_por_id(v.categorias, orden[k - 1].categoria_id),
        ));
        let pendientes = seleccion_desc(v.tareas, false);
        if k - 1 < pendientes.len() {
            let j = choose|j: int| 0 <= j < v.tareas.len() && pendientes[k - 1] == v.tareas[j];
            assert(v.tareas[j].id < v.siguiente_tarea);
        } else {
            let selt = seleccion_desc(v.tareas, true);
            let j = choose|j: int|
                0 <= j < v.tareas.len() && selt[k - 1 - pendientes.len()] == v.tareas[j];
            assert(v.tareas[j].id < v.siguiente_tarea);
        }
    };
}

/// An update that supplies no field at all is a no-op: the store after
/// it is the store before it, every row byte for byte.
pub proof fn ley_actualizacion_vacia(v: AlmacenVista, id: int, c: ActualizarVista)
    requires
        bien_formada(v),
        tiene_tarea(v.tareas, id),
        c.titulo matches Option::None,
        c.descripcion matches Option::None,
        c.categoria_id matches Option::None,
        c.completada matches Option::None,
    ensures
        tras_actualizar(v, id, c) == v,
{
    let i = indice_tarea(v.tareas, id);
    assert(0 <= i < v.tareas.len() && v.tareas[i].id == id);
    assert(aplicar(tarea_por_id(v.tareas, id), c) == tarea_por_id(v.tareas, id));
    assert(tras_actualizar(v, id, c).tareas =~= v.tareas);
    assert(tras_actualizar(v, id, c) =~= v);
}

/// An update that supplies only the completion flag changes that flag
/// of that row and nothing else: no other field, no other row, no
/// category.
pub proof fn ley_solo_completada(v: AlmacenVista, id: int, c: ActualizarVista, b: bool)
    requires
        bien_formada(v),
        tiene_tarea(v.tareas, id),
        c.titulo matches Option::None,
        c.descripcion matches Option::None,
        c.categoria_id matches Option::None,
        c.completada == Option::Some(b),
    ensures
        ({
            let v2 = tras_actualizar(v, id, c);
            let i = indice_tarea(v.tareas, id);
            &&& v2.categorias == v.categorias
            &&& v2.tareas.len() == v.tareas.len()
            &&& forall|k: int| 0 <= k < v.tareas.len() && k != i ==> v2.tareas[k] == v.tareas[k]
            &&& v2.tareas[i].id == v.tareas[i].id
            &&& v2.tareas[i].titulo == v.tareas[i].titulo
            &&& v2.tareas[i].descripcion == v.tareas[i].descripcion
            &&& v2.tareas[i].categoria_id == v.tareas[i].categoria_id
            &&& v2.tareas[i].completada == b
        }),
{
    let i = indice_tarea(v.tareas, id);
    assert(0 <= i < v.tareas.len() && v.tareas[i].id == id);
}

/// Deleting an existing id removes exactly one row, and the id is then
/// gone: a second delete of the same id finds nothing to remove.
pub proof fn ley_borrado_idempotente(v: AlmacenVista, id: int)
    requires
        bien_formada(v),
        tiene_tarea(v.tareas, id),
    ensures
        tras_borrar(v, id).tareas.len() == v.tareas.len() - 1,
        !tiene_tarea(tras_borrar(v, id).tareas, id),
{
    let i = indice_tarea(v.tareas, id);
    assert(0 <= i < v.tareas.len() && v.tareas[i].id == id);
    let quedan = tras_borrar(v, id).tareas;
    assert forall|k: int| 0 <= k < quedan.len() implies #[trigger] quedan[k].id != id by {
        if k < i {
            assert(quedan[k] == v.tareas[k]);
        } else {
            assert(quedan[k] == v.tareas[k + 1]);
        }
    };
}

} // verus!
