use tareas::consulta::{construir_update, Parametro};
use tareas::modelo::ActualizarTarea;

fn cambio(
    titulo: Option<&str>,
    descripcion: Option<&str>,
    categoria_id: Option<i64>,
    completada: Option<bool>,
) -> ActualizarTarea {
    ActualizarTarea {
        titulo: titulo.map(|s| s.to_string()),
        descripcion: descripcion.map(|s| s.to_string()),
        categoria_id,
        completada,
    }
}

fn es_texto(p: &Parametro, esperado: &str) -> bool {
    match p {
        Parametro::Texto(s) => s == esperado,
        _ => false,
    }
}

fn es_entero(p: &Parametro, esperado: i64) -> bool {
    match p {
        Parametro::Entero(n) => *n == esperado,
        _ => false,
    }
}

fn es_logico(p: &Parametro, esperado: bool) -> bool {
    match p {
        Parametro::Logico(b) => *b == esperado,
        _ => false,
    }
}

#[test]
fn subconjunto_vacio_no_construye_nada() {
    let r = construir_update(&cambio(None, None, None, None), 1);
    assert!(r.is_none());
}

#[test]
fn solo_completada_sin_separador_sobrante() {
    let (sql, params) = construir_update(&cambio(None, None, None, Some(true)), 7).unwrap();
    assert_eq!(sql, "UPDATE tareas SET completada = ? WHERE id = ?");
    assert_eq!(params.len(), 2);
    assert!(es_logico(&params[0], true));
    assert!(es_entero(&params[1], 7));
}

#[test]
fn solo_titulo_sin_separador_sobrante() {
    let (sql, params) = construir_update(&cambio(Some("Nuevo"), None, None, None), 3).unwrap();
    assert_eq!(sql, "UPDATE tareas SET titulo = ? WHERE id = ?");
    assert_eq!(params.len(), 2);
    assert!(es_texto(&params[0], "Nuevo"));
    assert!(es_entero(&params[1], 3));
}

#[test]
fn todos_los_campos_en_orden_fijo() {
    let (sql, params) =
        construir_update(&cambio(Some("T"), Some("D"), Some(2), Some(false)), 9).unwrap();
    assert_eq!(
        sql,
        "UPDATE tareas SET titulo = ?, descripcion = ?, categoria_id = ?, completada = ? WHERE id = ?"
    );
    assert_eq!(params.len(), 5);
    assert!(es_texto(&params[0], "T"));
    assert!(es_texto(&params[1], "D"));
    assert!(es_entero(&params[2], 2));
    assert!(es_logico(&params[3], false));
    assert!(es_entero(&params[4], 9));
}

#[test]
fn subconjunto_salteado_une_con_una_coma() {
    let (sql, params) = construir_update(&cambio(Some("T"), None, None, Some(true)), 5).unwrap();
    assert_eq!(sql, "UPDATE tareas SET titulo = ?, completada = ? WHERE id = ?");
    assert_eq!(params.len(), 3);
    assert!(es_texto(&params[0], "T"));
    assert!(es_logico(&params[1], true));
    assert!(es_entero(&params[2], 5));
}

#[test]
fn descripcion_y_categoria() {
    let (sql, params) = construir_update(&cambio(None, Some("D"), Some(4), None), 2).unwrap();
    assert_eq!(sql, "UPDATE tareas SET descripcion = ?, categoria_id = ? WHERE id = ?");
    assert_eq!(params.len(), 3);
    assert!(es_texto(&params[0], "D"));
    assert!(es_entero(&params[1], 4));
    assert!(es_entero(&params[2], 2));
}
