use tareas::almacen::Almacen;
use tareas::modelo::{ActualizarTarea, Campo, Fallo, NuevaTarea};

fn almacen_sembrado() -> Almacen {
    let mut a = Almacen::nuevo();
    a.init_categorias();
    a
}

fn nueva(titulo: &str, descripcion: &str, categoria_id: i64) -> NuevaTarea {
    NuevaTarea {
        titulo: titulo.to_string(),
        descripcion: descripcion.to_string(),
        categoria_id,
    }
}

fn sin_cambios() -> ActualizarTarea {
    ActualizarTarea { titulo: None, descripcion: None, categoria_id: None, completada: None }
}

#[test]
fn crear_y_listar_muestra_la_nueva() {
    let mut a = almacen_sembrado();
    let t = a.crear_tarea(&nueva("Comprar pan", "Una barra", 1)).unwrap();
    assert_eq!(t.id, 1);
    assert_eq!(t.titulo, "Comprar pan");
    assert_eq!(t.descripcion, "Una barra");
    assert_eq!(t.categoria.id, 1);
    assert_eq!(t.categoria.nombre, "Compras");
    assert!(!t.completada);
    let lista = a.listar_tareas();
    assert_eq!(lista.len(), 1);
    assert_eq!(lista[0].id, 1);
    assert_eq!(lista[0].titulo, "Comprar pan");
    assert_eq!(lista[0].descripcion, "Una barra");
    assert!(!lista[0].completada);
}

#[test]
fn actualizacion_vacia_no_cambia_nada() {
    let mut a = almacen_sembrado();
    a.crear_tarea(&nueva("Informe", "Redactar el informe", 2)).unwrap();
    let t = a.actualizar_tarea(1, &sin_cambios()).unwrap();
    assert_eq!(t.id, 1);
    assert_eq!(t.titulo, "Informe");
    assert_eq!(t.descripcion, "Redactar el informe");
    assert_eq!(t.categoria.id, 2);
    assert!(!t.completada);
}

#[test]
fn solo_completada_no_toca_otros_campos() {
    let mut a = almacen_sembrado();
    a.crear_tarea(&nueva("Leer", "Un capitulo", 3)).unwrap();
    let cambio = ActualizarTarea {
        titulo: None,
        descripcion: None,
        categoria_id: None,
        completada: Some(true),
    };
    let t = a.actualizar_tarea(1, &cambio).unwrap();
    assert_eq!(t.id, 1);
    assert_eq!(t.titulo, "Leer");
    assert_eq!(t.descripcion, "Un capitulo");
    assert_eq!(t.categoria.id, 3);
    assert!(t.completada);
}

#[test]
fn crear_con_categoria_inexistente_falla() {
    let mut a = almacen_sembrado();
    let r = a.crear_tarea(&nueva("Algo", "Con referencia rota", 9999));
    assert_eq!(r.unwrap_err(), Fallo::Referencia { categoria_id: 9999 });
    assert_eq!(a.listar_tareas().len(), 0);
}

#[test]
fn crear_con_titulo_en_blanco_falla() {
    let mut a = almacen_sembrado();
    let r = a.crear_tarea(&nueva("  ", "Descripcion valida", 1));
    assert_eq!(r.unwrap_err(), Fallo::Validacion { campo: Campo::Titulo });
    assert_eq!(a.listar_tareas().len(), 0);
}

#[test]
fn crear_con_descripcion_en_blanco_falla() {
    let mut a = almacen_sembrado();
    let r = a.crear_tarea(&nueva("Titulo valido", " \t ", 1));
    assert_eq!(r.unwrap_err(), Fallo::Validacion { campo: Campo::Descripcion });
}

#[test]
fn borrar_inexistente_falla_y_no_borra() {
    let mut a = almacen_sembrado();
    a.crear_tarea(&nueva("Una", "Tarea", 1)).unwrap();
    let r = a.borrar_tarea(42);
    assert_eq!(r.unwrap_err(), Fallo::NoEncontrada { tarea_id: 42 });
    assert_eq!(a.listar_tareas().len(), 1);
}

#[test]
fn orden_de_listado_pendientes_primero_id_descendente() {
    let mut a = almacen_sembrado();
    a.crear_tarea(&nueva("Primera", "Uno", 1)).unwrap();
    a.crear_tarea(&nueva("Segunda", "Dos", 1)).unwrap();
    a.crear_tarea(&nueva("Tercera", "Tres", 1)).unwrap();
    let cambio = ActualizarTarea {
        titulo: None,
        descripcion: None,
        categoria_id: None,
        completada: Some(true),
    };
    a.actualizar_tarea(2, &cambio).unwrap();
    let lista = a.listar_tareas();
    let ids: Vec<i64> = lista.iter().map(|t| t.id).collect();
    assert_eq!(ids, vec![3, 1, 2]);
}

#[test]
fn borrado_doble_exito_y_luego_no_encontrada() {
    let mut a = almacen_sembrado();
    a.crear_tarea(&nueva("Efimera", "Se borra dos veces", 1)).unwrap();
    a.crear_tarea(&nueva("Estable", "Se queda", 1)).unwrap();
    assert!(a.borrar_tarea(1).is_ok());
    assert_eq!(a.listar_tareas().len(), 1);
    let r = a.borrar_tarea(1);
    assert_eq!(r.unwrap_err(), Fallo::NoEncontrada { tarea_id: 1 });
    assert_eq!(a.listar_tareas().len(), 1);
}

#[test]
fn listar_categorias_ordena_por_nombre() {
    let a = almacen_sembrado();
    let cats = a.listar_categorias();
    let nombres: Vec<&str> = cats.iter().map(|c| c.nombre.as_str()).collect();
    assert_eq!(nombres, vec!["Compras", "Estudio", "Otros", "Personal", "Trabajo"]);
}

#[test]
fn sembrar_dos_veces_no_duplica() {
    let mut a = almacen_sembrado();
    a.init_categorias();
    assert_eq!(a.listar_categorias().len(), 5);
}

#[test]
fn actualizar_tarea_inexistente_falla_primero() {
    let mut a = almacen_sembrado();
    let cambio = ActualizarTarea {
        titulo: Some("  ".to_string()),
        descripcion: None,
        categoria_id: Some(9999),
        completada: None,
    };
    let r = a.actualizar_tarea(7, &cambio);
    assert_eq!(r.unwrap_err(), Fallo::NoEncontrada { tarea_id: 7 });
}

#[test]
fn actualizar_con_categoria_inexistente_falla_antes_que_el_titulo() {
    let mut a = almacen_sembrado();
    a.crear_tarea(&nueva("Algo", "Valido", 1)).unwrap();
    let cambio = ActualizarTarea {
        titulo: Some("  ".to_string()),
        descripcion: None,
        categoria_id: Some(9999),
        completada: None,
    };
    let r = a.actualizar_tarea(1, &cambio);
    assert_eq!(r.unwrap_err(), Fallo::Referencia { categoria_id: 9999 });
    let t = a.obtener_tarea_completa(1).unwrap();
    assert_eq!(t.titulo, "Algo");
}

#[test]
fn actualizar_con_titulo_en_blanco_falla_y_no_cambia() {
    let mut a = almacen_sembrado();
    a.crear_tarea(&nueva("Antes", "Igual", 1)).unwrap();
    let cambio = ActualizarTarea {
        titulo: Some(" \n ".to_string()),
        descripcion: None,
        categoria_id: None,
        completada: None,
    };
    let r = a.actualizar_tarea(1, &cambio);
    assert_eq!(r.unwrap_err(), Fallo::Validacion { campo: Campo::Titulo });
    assert_eq!(a.obtener_tarea_completa(1).unwrap().titulo, "Antes");
}

#[test]
fn actualizar_todos_los_campos() {
    let mut a = almacen_sembrado();
    a.crear_tarea(&nueva("Viejo", "Anterior", 1)).unwrap();
    let cambio = ActualizarTarea {
        titulo: Some("Nuevo".to_string()),
        descripcion: Some("Posterior".to_string()),
        categoria_id: Some(4),
        completada: Some(true),
    };
    let t = a.actualizar_tarea(1, &cambio).unwrap();
    assert_eq!(t.titulo, "Nuevo");
    assert_eq!(t.descripcion, "Posterior");
    assert_eq!(t.categoria.id, 4);
    assert_eq!(t.categoria.nombre, "Personal");
    assert!(t.completada);
}

#[test]
fn obtener_tarea_inexistente_falla() {
    let a = almacen_sembrado();
    let r = a.obtener_tarea_completa(3);
    assert_eq!(r.unwrap_err(), Fallo::NoEncontrada { tarea_id: 3 });
}
