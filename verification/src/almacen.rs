use vstd::prelude::*;
use vstd::string::StringExecFns;
use crate::modelo::{
    anidada, aplicar, armar_tarea, ActualizarTarea, ActualizarVista, Campo, Categoria,
    CategoriaVista, Fallo, NuevaTarea, NuevaVista, Tarea, TareaFila, TareaFilaVista, TareaVista,
};
use crate::texto::{es_blanco, lema_lex_total, lex_le, texto_en_blanco, texto_le};

verus! {

/// The relational state: the two tables and the identity counters
/// that assign the next fresh id in each one.
pub struct Almacen {
    pub categorias: Vec<Categoria>,
    pub tareas: Vec<TareaFila>,
    pub siguiente_tarea: i64,
    pub siguiente_categoria: i64,
}

/// Mathematical image of the whole store.
#[verifier::ext_equal]
pub ghost struct AlmacenVista {
    pub categorias: Seq<CategoriaVista>,
    pub tareas: Seq<TareaFilaVista>,
    pub siguiente_tarea: int,
    pub siguiente_categoria: int,
}

pub open spec fn vistas_categorias(cs: Seq<Categoria>) -> Seq<CategoriaVista> {
    cs.map_values(|c: Categoria| c@)
}

pub open spec fn vistas_filas(ts: Seq<TareaFila>) -> Seq<TareaFilaVista> {
    ts.map_values(|t: TareaFila| t@)
}

impl View for Almacen {
    type V = AlmacenVista;

    open spec fn view(&self) -> AlmacenVista {
        AlmacenVista {
            categorias: vistas_categorias(self.categorias@),
            tareas: vistas_filas(self.tareas@),
            siguiente_tarea: self.siguiente_tarea as int,
            siguiente_categoria: self.siguiente_categoria as int,
        }
    }
}

/// Some category row carries this id.
pub open spec fn tiene_categoria(cs: Seq<CategoriaVista>, id: int) -> bool {
    exists|k: int| 0 <= k < cs.len() && cs[k].id == id
}

/// Some category row carries this name.
pub open spec fn tiene_nombre(cs: Seq<CategoriaVista>, nombre: Seq<char>) -> bool {
    exists|k: int| 0 <= k < cs.len() && cs[k].nombre == nombre
}

/// The position of the category row with this id; meaningful only
/// when `tiene_categoria` holds and ids are unique.
pub open spec fn indice_categoria(cs: Seq<CategoriaVista>, id: int) -> int {
    choose|k: int| 0 <= k < cs.len() && cs[k].id == id
}

/// The category row with this id.
pub open spec fn categoria_por_id(cs: Seq<CategoriaVista>, id: int) -> CategoriaVista {
    cs[indice_categoria(cs, id)]
}

/// Some task row carries this id.
pub open spec fn tiene_tarea(ts: Seq<TareaFilaVista>, id: int) -> bool {
    exists|k: int| 0 <= k < ts.len() && ts[k].id == id
}

/// The position of the task row with this id; meaningful only when
/// `tiene_tarea` holds and ids are unique.
pub open spec fn indice_tarea(ts: Seq<TareaFilaVista>, id: int) -> int {
    choose|k: int| 0 <= k < ts.len() && ts[k].id == id
}

/// The task row with this id.
pub open spec fn tarea_por_id(ts: Seq<TareaFilaVista>, id: int) -> TareaFilaVista {
    ts[indice_tarea(ts, id)]
}

/// A stored task row is valid within a store: a positive id below the
/// counter, a category that exists, and non-blank text fields.
pub open spec fn fila_valida(t: TareaFilaVista, v: AlmacenVista) -> bool {
    &&& 1 <= t.id < v.siguiente_tarea
    &&& tiene_categoria(v.categorias, t.categoria_id)
    &&& !es_blanco(t.titulo)
    &&& !es_blanco(t.descripcion)
}

/// The store's invariant: category ids and names unique and below the
/// counter, task ids strictly increasing in storage order, and every
/// task row valid.
pub open spec fn bien_formada(v: AlmacenVista) -> bool {
    &&& 1 <= v.siguiente_categoria
    &&& 1 <= v.siguiente_tarea
    &&& forall|i: int, j: int| #![trigger v.categorias[i], v.categorias[j]]
        0 <= i < j < v.categorias.len() ==> v.categorias[i].id != v.categorias[j].id
            && v.categorias[i].nombre != v.categorias[j].nombre
    &&& forall|i: int| 0 <= i < v.categorias.len() ==> 1 <= (#[trigger] v.categorias[i]).id
            < v.siguiente_categoria
    &&& forall|i: int, j: int| #![trigger v.tareas[i], v.tareas[j]]
        0 <= i < j < v.tareas.len() ==> v.tareas[i].id < v.tareas[j].id
    &&& forall|i: int| 0 <= i < v.tareas.len() ==> fila_valida(#[trigger] v.tareas[i], v)
}

/// The store image with no rows and both counters at one.
pub open spec fn vacia() -> AlmacenVista {
    AlmacenVista {
        categorias: Seq::empty(),
        tareas: Seq::empty(),
        siguiente_tarea: 1,
        siguiente_categoria: 1,
    }
}

/// The store image after seeding one category name: unchanged when the
/// name is already present, else the new row appended under the next id.
pub open spec fn sembrada(v: AlmacenVista, nombre: Seq<char>) -> AlmacenVista {
    if tiene_nombre(v.categorias, nombre) {
        v
    } else {
        AlmacenVista {
            categorias: v.categorias.push(
                CategoriaVista { id: v.siguiente_categoria, nombre },
            ),
            siguiente_categoria: v.siguiente_categoria + 1,
            ..v
        }
    }
}

/// The store image after seeding the fixed default category names.
pub open spec fn sembradas_defecto(v: AlmacenVista) -> AlmacenVista {
    sembrada(
        sembrada(
            sembrada(sembrada(sembrada(v, "Compras"@), "Trabajo"@), "Estudio"@),
            "Personal"@,
        ),
        "Otros"@,
    )
}

/// Category rows in ascending lexicographic order of name, each row no
/// later than the next.
pub open spec fn ordenadas_por_nombre(cs: Seq<CategoriaVista>) -> bool {
    forall|i: int|
        0 <= i && i + 1 < cs.len() ==> lex_le((#[trigger] cs[i]).nombre, cs[i + 1].nombre)
}

/// Inserting anywhere in a sequence adds exactly that element to its
/// multiset of elements.
proof fn lema_insertar_multiset<A>(s: Seq<A>, i: int, x: A)
    requires
        0 <= i <= s.len(),
    ensures
        s.insert(i, x).to_multiset() == s.to_multiset().insert(x),
{
    broadcast use vstd::multiset::group_multiset_axioms;

    let izq = s.subrange(0, i);
    let der = s.subrange(i, s.len() as int);
    assert(s.insert(i, x) == izq.push(x) + der);
    vstd::seq_lib::lemma_multiset_commutative(izq.push(x), der);
    vstd::seq_lib::to_multiset_build(izq, x);
    vstd::seq_lib::lemma_multiset_commutative(izq, der);
    assert(izq + der =~= s);
    assert(izq.to_multiset().insert(x).add(der.to_multiset()) =~= izq.to_multiset().add(
        der.to_multiset(),
    ).insert(x));
}

/// The rows with this completion flag, in descending storage order
/// (storage order is ascending by id, so this is descending by id).
pub open spec fn seleccion_desc(ts: Seq<TareaFilaVista>, completada: bool) -> Seq<TareaFilaVista>
    decreases ts.len(),
{
    if ts.len() == 0 {
        Seq::empty()
    } else {
        let resto = seleccion_desc(ts.drop_last(), completada);
        if ts.last().completada == completada {
            seq![ts.last()] + resto
        } else {
            resto
        }
    }
}

/// The order a task listing comes back in: incomplete tasks first,
/// then completed ones, each group by descending id.
pub open spec fn orden_listado(ts: Seq<TareaFilaVista>) -> Seq<TareaFilaVista> {
    seleccion_desc(ts, false) + seleccion_desc(ts, true)
}

/// Each flat row joined with its category row into the nested shape.
pub open spec fn anidar_seq(v: AlmacenVista, ts: Seq<TareaFilaVista>) -> Seq<TareaVista> {
    ts.map_values(|t: TareaFilaVista| anidada(t, categoria_por_id(v.categorias, t.categoria_id)))
}

/// What a task listing returns: the ordered rows, nested.
pub open spec fn listado(v: AlmacenVista) -> Seq<TareaVista> {
    anidar_seq(v, orden_listado(v.tareas))
}

/// The views of a vector of nested tasks.
pub open spec fn vistas_tareas(ts: Seq<Tarea>) -> Seq<TareaVista> {
    ts.map_values(|t: Tarea| t@)
}

/// Nesting distributes over concatenation of row sequences.
proof fn lema_anidar_concat(v: AlmacenVista, a: Seq<TareaFilaVista>, b: Seq<TareaFilaVista>)
    ensures
        anidar_seq(v, a + b) == anidar_seq(v, a) + anidar_seq(v, b),
{
    assert(anidar_seq(v, a + b) =~= anidar_seq(v, a) + anidar_seq(v, b));
}

/// The row that a create request adds: the next fresh id, the given
/// fields, and the completion flag down.
pub open spec fn fila_creada(v: AlmacenVista, n: NuevaVista) -> TareaFilaVista {
    TareaFilaVista {
        id: v.siguiente_tarea,
        titulo: n.titulo,
        descripcion: n.descripcion,
        categoria_id: n.categoria_id,
        completada: false,
    }
}

/// The store image after a successful create: the new row appended and
/// the task counter advanced.
pub open spec fn tras_crear(v: AlmacenVista, n: NuevaVista) -> AlmacenVista {
    AlmacenVista {
        tareas: v.tareas.push(fila_creada(v, n)),
        siguiente_tarea: v.siguiente_tarea + 1,
        ..v
    }
}

/// Whether a partial update supplies a new category id.
pub open spec fn pide_categoria(c: ActualizarVista) -> bool {
    c.categoria_id matches Option::Some(_)
}

/// The supplied category id; meaningful only under `pide_categoria`.
pub open spec fn categoria_pedida(c: ActualizarVista) -> int {
    match c.categoria_id {
        Option::Some(x) => x,
        Option::None => 0,
    }
}

/// Whether a partial update supplies a new title.
pub open spec fn pide_titulo(c: ActualizarVista) -> bool {
    c.titulo matches Option::Some(_)
}

/// The supplied title; meaningful only under `pide_titulo`.
pub open spec fn titulo_pedido(c: ActualizarVista) -> Seq<char> {
    match c.titulo {
        Option::Some(s) => s,
        Option::None => Seq::empty(),
    }
}

/// Whether a partial update supplies a new description.
pub open spec fn pide_descripcion(c: ActualizarVista) -> bool {
    c.descripcion matches Option::Some(_)
}

/// The supplied description; meaningful only under `pide_descripcion`.
pub open spec fn descripcion_pedida(c: ActualizarVista) -> Seq<char> {
    match c.descripcion {
        Option::Some(s) => s,
        Option::None => Seq::empty(),
    }
}

/// The store image after a successful partial update: the row with
/// this id replaced by its updated image, everything else untouched.
pub open spec fn tras_actualizar(v: AlmacenVista, id: int, c: ActualizarVista) -> AlmacenVista {
    AlmacenVista {
        tareas: v.tareas.update(
            indice_tarea(v.tareas, id),
            aplicar(tarea_por_id(v.tareas, id), c),
        ),
        ..v
    }
}

/// The store image after a successful delete: the row with this id
/// removed, everything else untouched.
pub open spec fn tras_borrar(v: AlmacenVista, id: int) -> AlmacenVista {
    AlmacenVista { tareas: v.tareas.remove(indice_tarea(v.tareas, id)), ..v }
}

impl Almacen {
    /// An empty store.
    pub fn nuevo() -> (r: Almacen)
        ensures
            r@ == vacia(),
            bien_formada(r@),
    {
        let a = Almacen {
            categorias: Vec::new(),
            tareas: Vec::new(),
            siguiente_tarea: 1,
            siguiente_categoria: 1,
        };
        proof {
            assert(a@ =~= vacia());
        }
        a
    }

    /// The position of the category row with this id, if any.
    fn posicion_categoria(&self, id: i64) -> (r: Option<usize>)
        ensures
            match r {
                Option::Some(i) => i < self@.categorias.len()
                    && self@.categorias[i as int].id == id as int,
                Option::None => !tiene_categoria(self@.categorias, id as int),
            },
    {
        let mut k: usize = 0;
        while k < self.categorias.len()
            invariant
                k <= self.categorias.len(),
                forall|j: int| 0 <= j < k ==> self@.categorias[j].id != id as int,
            decreases self.categorias.len() - k,
        {
            if self.categorias[k].id == id {
                return Option::Some(k);
            }
            k += 1;
        }
        Option::None
    }

    /// The position of the task row with this id, if any.
    fn posicion_tarea(&self, id: i64) -> (r: Option<usize>)
        ensures
            match r {
                Option::Some(i) => i < self@.tareas.len()
                    && self@.tareas[i as int].id == id as int,
                Option::None => !tiene_tarea(self@.tareas, id as int),
            },
    {
        let mut k: usize = 0;
        while k < self.tareas.len()
            invariant
                k <= self.tareas.len(),
                forall|j: int| 0 <= j < k ==> self@.tareas[j].id != id as int,
            decreases self.tareas.len() - k,
        {
            if self.tareas[k].id == id {
                return Option::Some(k);
            }
            k += 1;
        }
        Option::None
    }

    /// The position of the category row with this name, if any.
    fn posicion_nombre(&self, nombre: &String) -> (r: Option<usize>)
        ensures
            match r {
                Option::Some(i) => i < self@.categorias.len()
                    && self@.categorias[i as int].nombre == nombre@,
                Option::None => !tiene_nombre(self@.categorias, nombre@),
            },
    {
        let mut k: usize = 0;
        while k < self.categorias.len()
            invariant
                k <= self.categorias.len(),
                forall|j: int| 0 <= j < k ==> self@.categorias[j].nombre != nombre@,
            decreases self.categorias.len() - k,
        {
            if self.categorias[k].nombre == *nombre {
                return Option::Some(k);
            }
            k += 1;
        }
        Option::None
    }

    /// Lists every category, sorted by name in ascending lexicographic
    /// order: the same rows the store holds, reordered.
    pub fn listar_categorias(&self) -> (r: Vec<Categoria>)
        ensures
            vistas_categorias(r@).to_multiset() == self@.categorias.to_multiset(),
            ordenadas_por_nombre(vistas_categorias(r@)),
    {
        let mut r: Vec<Categoria> = Vec::new();
        let n = self.categorias.len();
        proof {
            assert(vistas_categorias(r@) =~= Seq::<CategoriaVista>::empty());
            assert(self@.categorias.subrange(0, 0) =~= Seq::<CategoriaVista>::empty());
        }
        let mut k: usize = 0;
        while k < n
            invariant
                k <= n,
                n == self.categorias.len(),
                vistas_categorias(r@).to_multiset() == self@.categorias.subrange(
                    0,
                    k as int,
                ).to_multiset(),
                ordenadas_por_nombre(vistas_categorias(r@)),
            decreases n - k,
        {
            let c = &self.categorias[k];
            let p = Self::posicion_insercion(&r, c.nombre.as_str());
            let ghost r0 = vistas_categorias(r@);
            let copia = Categoria { id: c.id, nombre: c.nombre.clone() };
            r.insert(p, copia);
            proof {
                let cs = self@.categorias;
                let nuevo = vistas_categorias(r@);
                assert(nuevo =~= r0.insert(p as int, cs[k as int]));
                lema_insertar_multiset(r0, p as int, cs[k as int]);
                assert(cs.subrange(0, k as int + 1) =~= cs.subrange(0, k as int).push(
                    cs[k as int],
                ));
                vstd::seq_lib::to_multiset_build(cs.subrange(0, k as int), cs[k as int]);
                r0.insert_ensures(p as int, cs[k as int]);
                if (p as int) < r0.len() {
                    lema_lex_total(cs[k as int].nombre, r0[p as int].nombre);
                }
                assert forall|i: int| #![trigger nuevo[i]] 0 <= i && i + 1 < nuevo.len() implies
                    lex_le(nuevo[i].nombre, nuevo[i + 1].nombre) by {
                    if i + 1 < p {
                        assert(nuevo[i] == r0[i] && nuevo[i + 1] == r0[i + 1]);
                    } else if i + 1 == p {
                        assert(nuevo[i] == r0[i] && nuevo[i + 1] == cs[k as int]);
                    } else if i == p {
                        assert(nuevo[i] == cs[k as int] && nuevo[i + 1] == r0[i]);
                    } else {
                        assert(nuevo[i] == r0[i - 1] && nuevo[i + 1] == r0[i]);
                    }
                };
            }
            k += 1;
        }
        proof {
            assert(self@.categorias.subrange(0, n as int) =~= self@.categorias);
        }
        r
    }

    /// The position at which a row with this name belongs in a vector
    /// already sorted by name: past every row whose name precedes it.
    fn posicion_insercion(r: &Vec<Categoria>, nombre: &str) -> (p: usize)
        ensures
            p <= r@.len(),
            forall|q: int| 0 <= q < p ==> lex_le((#[trigger] r@[q])@.nombre, nombre@),
            p < r@.len() ==> !lex_le(r@[p as int]@.nombre, nombre@),
    {
        let mut p: usize = 0;
        while p < r.len()
            invariant
                p <= r@.len(),
                forall|q: int| 0 <= q < p ==> lex_le((#[trigger] r@[q])@.nombre, nombre@),
            decreases r@.len() - p,
        {
            if !texto_le(r[p].nombre.as_str(), nombre) {
                return p;
            }
            p += 1;
        }
        p
    }

    /// Seeds one category name: inserts it under the next id unless a
    /// row with that name already exists.
    pub fn sembrar_categoria(&mut self, nombre: String)
        requires
            bien_formada(old(self)@),
            old(self).siguiente_categoria < i64::MAX,
        ensures
            bien_formada(final(self)@),
            final(self)@ == sembrada(old(self)@, nombre@),
    {
        let existente = self.posicion_nombre(&nombre);
        if existente.is_none() {
            let id = self.siguiente_categoria;
            self.categorias.push(Categoria { id, nombre });
            self.siguiente_categoria = id + 1;
            proof {
                assert(self@.categorias =~= old(self)@.categorias.push(
                    (CategoriaVista { id: id as int, nombre: nombre@ }),
                ));
                assert(self@ =~= sembrada(old(self)@, nombre@));
                assert forall|i: int| 0 <= i < self@.tareas.len() implies fila_valida(
                    self@.tareas[i],
                    self@,
                ) by {
                    assert(fila_valida(old(self)@.tareas[i], old(self)@));
                    let k = choose|k: int|
                        0 <= k < old(self)@.categorias.len() && old(self)@.categorias[k].id
                            == old(self)@.tareas[i].categoria_id;
                    assert(self@.categorias[k].id == self@.tareas[i].categoria_id);
                };
            }
        }
    }

    /// Seeds the fixed default category names, idempotently: a name
    /// already present is left alone.
    pub fn init_categorias(&mut self)
        requires
            bien_formada(old(self)@),
            old(self).siguiente_categoria + 5 <= i64::MAX,
        ensures
            bien_formada(final(self)@),
            final(self)@ == sembradas_defecto(old(self)@),
    {
        self.sembrar_categoria(String::from_str("Compras"));
        self.sembrar_categoria(String::from_str("Trabajo"));
        self.sembrar_categoria(String::from_str("Estudio"));
        self.sembrar_categoria(String::from_str("Personal"));
        self.sembrar_categoria(String::from_str("Otros"));
    }

    /// The fixed default category names, in seeding order.
    pub fn nombres_defecto() -> (r: Vec<String>)
        ensures
            r@.len() == 5,
            r@[0]@ == "Compras"@,
            r@[1]@ == "Trabajo"@,
            r@[2]@ == "Estudio"@,
            r@[3]@ == "Personal"@,
            r@[4]@ == "Otros"@,
    {
        let mut r: Vec<String> = Vec::new();
        r.push(String::from_str("Compras"));
        r.push(String::from_str("Trabajo"));
        r.push(String::from_str("Estudio"));
        r.push(String::from_str("Personal"));
        r.push(String::from_str("Otros"));
        r
    }

    /// Creates a task: validates the two text fields, checks that the
    /// referenced category exists, then appends the row under the next
    /// fresh id and returns it in the nested shape.
    pub fn crear_tarea(&mut self, nueva: &NuevaTarea) -> (r: Result<Tarea, Fallo>)
        requires
            bien_formada(old(self)@),
            old(self).siguiente_tarea < i64::MAX,
        ensures
            bien_formada(final(self)@),
            ({
                let v = old(self)@;
                let n = nueva@;
                if es_blanco(n.titulo) {
                    &&& final(self)@ == v
                    &&& r == Result::<Tarea, Fallo>::Err(Fallo::Validacion { campo: Campo::Titulo })
                } else if es_blanco(n.descripcion) {
                    &&& final(self)@ == v
                    &&& r == Result::<Tarea, Fallo>::Err(
                        Fallo::Validacion { campo: Campo::Descripcion },
                    )
                } else if !tiene_categoria(v.categorias, n.categoria_id) {
                    &&& final(self)@ == v
                    &&& r == Result::<Tarea, Fallo>::Err(
                        Fallo::Referencia { categoria_id: nueva.categoria_id },
                    )
                } else {
                    &&& final(self)@ == tras_crear(v, n)
                    &&& r matches Result::Ok(t) && t@ == anidada(
                        fila_creada(v, n),
                        categoria_por_id(v.categorias, n.categoria_id),
                    )
                }
            }),
    {
        if texto_en_blanco(nueva.titulo.as_str()) {
            return Result::Err(Fallo::Validacion { campo: Campo::Titulo });
        }
        if texto_en_blanco(nueva.descripcion.as_str()) {
            return Result::Err(Fallo::Validacion { campo: Campo::Descripcion });
        }
        match self.posicion_categoria(nueva.categoria_id) {
            Option::None => Result::Err(Fallo::Referencia { categoria_id: nueva.categoria_id }),
            Option::Some(i) => {
                let id = self.siguiente_tarea;
                let fila = TareaFila {
                    id,
                    titulo: nueva.titulo.clone(),
                    descripcion: nueva.descripcion.clone(),
                    categoria_id: nueva.categoria_id,
                    completada: false,
                };
                proof {
                    let v = old(self)@;
                    let k = indice_categoria(v.categorias, nueva@.categoria_id);
                    if k != i {
                        assert(false);
                    }
                }
                let tarea = armar_tarea(&fila, &self.categorias[i]);
                self.tareas.push(fila);
                self.siguiente_tarea = id + 1;
                proof {
                    let v = old(self)@;
                    let n = nueva@;
                    assert(self@.tareas =~= v.tareas.push(fila_creada(v, n)));
                    assert(self@ =~= tras_crear(v, n));
                    assert forall|x: int| 0 <= x < self@.tareas.len() implies fila_valida(
                        self@.tareas[x],
                        self@,
                    ) by {
                        if x < v.tareas.len() {
                            assert(fila_valida(v.tareas[x], v));
                        }
                    };
                }
                Result::Ok(tarea)
            },
        }
    }

    /// Applies a partial update to the task with this id. Checks, in
    /// order: that the task exists, that a supplied category id exists,
    /// that a supplied title and then description are not blank; only
    /// then replaces the supplied fields and returns the updated task
    /// in the nested shape. Omitted fields are untouched; an empty
    /// field subset changes nothing.
    pub fn actualizar_tarea(&mut self, id: i64, cambio: &ActualizarTarea) -> (r: Result<
        Tarea,
        Fallo,
    >)
        requires
            bien_formada(old(self)@),
        ensures
            bien_formada(final(self)@),
            ({
                let v = old(self)@;
                let c = cambio@;
                if !tiene_tarea(v.tareas, id as int) {
                    &&& final(self)@ == v
                    &&& r == Result::<Tarea, Fallo>::Err(Fallo::NoEncontrada { tarea_id: id })
                } else if pide_categoria(c) && !tiene_categoria(v.categorias, categoria_pedida(c)) {
                    &&& final(self)@ == v
                    &&& r == Result::<Tarea, Fallo>::Err(
                        Fallo::Referencia { categoria_id: categoria_pedida(c) as i64 },
                    )
                } else if pide_titulo(c) && es_blanco(titulo_pedido(c)) {
                    &&& final(self)@ == v
                    &&& r == Result::<Tarea, Fallo>::Err(Fallo::Validacion { campo: Campo::Titulo })
                } else if pide_descripcion(c) && es_blanco(descripcion_pedida(c)) {
                    &&& final(self)@ == v
                    &&& r == Result::<Tarea, Fallo>::Err(
                        Fallo::Validacion { campo: Campo::Descripcion },
                    )
                } else {
                    &&& final(self)@ == tras_actualizar(v, id as int, c)
                    &&& r matches Result::Ok(t) && t@ == anidada(
                        aplicar(tarea_por_id(v.tareas, id as int), c),
                        categoria_por_id(
                            v.categorias,
                            aplicar(tarea_por_id(v.tareas, id as int), c).categoria_id,
                        ),
                    )
                }
            }),
    {
        let i = match self.posicion_tarea(id) {
            Option::None => {
                return Result::Err(Fallo::NoEncontrada { tarea_id: id });
            },
            Option::Some(i) => i,
        };
        proof {
            let v = self@;
            let k = indice_tarea(v.tareas, id as int);
            if k != i {
                assert(false);
            }
            assert(fila_valida(v.tareas[i as int], v));
        }
        if let Option::Some(cid) = cambio.categoria_id {
            if self.posicion_categoria(cid).is_none() {
                return Result::Err(Fallo::Referencia { categoria_id: cid });
            }
        }
        if let Option::Some(t) = &cambio.titulo {
            if texto_en_blanco(t.as_str()) {
                return Result::Err(Fallo::Validacion { campo: Campo::Titulo });
            }
        }
        if let Option::Some(d) = &cambio.descripcion {
            if texto_en_blanco(d.as_str()) {
                return Result::Err(Fallo::Validacion { campo: Campo::Descripcion });
            }
        }
        let vieja = &self.tareas[i];
        let fila = TareaFila {
            id: vieja.id,
            titulo: match &cambio.titulo {
                Option::Some(s) => s.clone(),
                Option::None => vieja.titulo.clone(),
            },
            descripcion: match &cambio.descripcion {
                Option::Some(s) => s.clone(),
                Option::None => vieja.descripcion.clone(),
            },
            categoria_id: match cambio.categoria_id {
                Option::Some(c) => c,
                Option::None => vieja.categoria_id,
            },
            completada: match cambio.completada {
                Option::Some(b) => b,
                Option::None => vieja.completada,
            },
        };
        proof {
            assert(fila@ == aplicar(self@.tareas[i as int], cambio@));
        }
        let j = match self.posicion_categoria(fila.categoria_id) {
            Option::None => {
                proof {
                    assert(false);
                }
                return Result::Err(Fallo::Persistencia);
            },
            Option::Some(j) => j,
        };
        proof {
            let v = self@;
            let k = indice_categoria(v.categorias, fila@.categoria_id);
            if k != j {
                assert(false);
            }
        }
        let tarea = armar_tarea(&fila, &self.categorias[j]);
        self.tareas.remove(i);
        self.tareas.insert(i, fila);
        proof {
            let v = old(self)@;
            let c = cambio@;
            assert(self@.tareas =~= v.tareas.update(i as int, aplicar(v.tareas[i as int], c)));
            assert(self@ =~= tras_actualizar(v, id as int, c));
            assert forall|x: int| 0 <= x < self@.tareas.len() implies fila_valida(
                self@.tareas[x],
                self@,
            ) by {
                assert(fila_valida(v.tareas[x], v));
            };
        }
        Result::Ok(tarea)
    }

    /// Removes the task row with this id; an unknown id fails and
    /// changes nothing.
    pub fn borrar_tarea(&mut self, id: i64) -> (r: Result<(), Fallo>)
        requires
            bien_formada(old(self)@),
        ensures
            bien_formada(final(self)@),
            ({
                let v = old(self)@;
                if tiene_tarea(v.tareas, id as int) {
                    &&& final(self)@ == tras_borrar(v, id as int)
                    &&& r == Result::<(), Fallo>::Ok(())
                } else {
                    &&& final(self)@ == v
                    &&& r == Result::<(), Fallo>::Err(Fallo::NoEncontrada { tarea_id: id })
                }
            }),
    {
        match self.posicion_tarea(id) {
            Option::None => Result::Err(Fallo::NoEncontrada { tarea_id: id }),
            Option::Some(i) => {
                proof {
                    let v = old(self)@;
                    let k = indice_tarea(v.tareas, id as int);
                    if k != i {
                        assert(false);
                    }
                }
                self.tareas.remove(i);
                proof {
                    let v = old(self)@;
                    assert(self@.tareas =~= v.tareas.remove(i as int));
                    assert(self@ =~= tras_borrar(v, id as int));
                    assert forall|x: int| 0 <= x < self@.tareas.len() implies fila_valida(
                        self@.tareas[x],
                        self@,
                    ) by {
                        if x < i {
                            assert(fila_valida(v.tareas[x], v));
                        } else {
                            assert(fila_valida(v.tareas[x + 1], v));
                        }
                    };
                }
                Result::Ok(())
            },
        }
    }

    /// Appends to `r`, in descending storage order, the nested image of
    /// every task row with this completion flag.
    fn agregar_grupo(&self, r: &mut Vec<Tarea>, completada: bool)
        requires
            bien_formada(self@),
        ensures
            vistas_tareas(final(r)@) == vistas_tareas(old(r)@) + anidar_seq(
                self@,
                seleccion_desc(self@.tareas, completada),
            ),
    {
        let n = self.tareas.len();
        let mut i: usize = n;
        proof {
            assert(self@.tareas.subrange(0, n as int) =~= self@.tareas);
        }
        while i > 0
            invariant
                bien_formada(self@),
                i <= n,
                n == self.tareas.len(),
                vistas_tareas(r@) + anidar_seq(
                    self@,
                    seleccion_desc(self@.tareas.subrange(0, i as int), completada),
                ) == vistas_tareas(old(r)@) + anidar_seq(
                    self@,
                    seleccion_desc(self@.tareas, completada),
                ),
            decreases i,
        {
            i -= 1;
            let ghost v = self@;
            let ghost ts = self@.tareas;
            proof {
                assert(ts.subrange(0, i as int + 1).drop_last() =~= ts.subrange(0, i as int));
                assert(ts.subrange(0, i as int + 1).last() == ts[i as int]);
            }
            let fila = &self.tareas[i];
            if fila.completada == completada {
                proof {
                    assert(fila_valida(ts[i as int], v));
                }
                let j = match self.posicion_categoria(fila.categoria_id) {
                    Option::None => {
                        proof {
                            assert(false);
                        }
                        return ;
                    },
                    Option::Some(j) => j,
                };
                proof {
                    let k = indice_categoria(v.categorias, ts[i as int].categoria_id);
                    if k != j {
                        assert(false);
                    }
                }
                let ghost r0 = r@;
                let tarea = armar_tarea(fila, &self.categorias[j]);
                r.push(tarea);
                proof {
                    assert(vistas_tareas(r@) =~= vistas_tareas(r0).push(tarea@));
                    lema_anidar_concat(
                        v,
                        seq![ts[i as int]],
                        seleccion_desc(ts.subrange(0, i as int), completada),
                    );
                    assert(anidar_seq(v, seq![ts[i as int]]) =~= seq![tarea@]);
                    assert(vistas_tareas(r@) + anidar_seq(
                        v,
                        seleccion_desc(ts.subrange(0, i as int), completada),
                    ) =~= vistas_tareas(r0) + anidar_seq(
                        v,
                        seleccion_desc(ts.subrange(0, i as int + 1), completada),
                    ));
                }
            }
        }
    }

    /// Lists every task in the response order: incomplete tasks first,
    /// then completed ones, each group by descending id, each joined
    /// with its category.
    pub fn listar_tareas(&self) -> (r: Vec<Tarea>)
        requires
            bien_formada(self@),
        ensures
            vistas_tareas(r@) == listado(self@),
    {
        let mut r: Vec<Tarea> = Vec::new();
        proof {
            assert(vistas_tareas(r@) =~= Seq::<TareaVista>::empty());
        }
        self.agregar_grupo(&mut r, false);
        self.agregar_grupo(&mut r, true);
        proof {
            lema_anidar_concat(
                self@,
                seleccion_desc(self@.tareas, false),
                seleccion_desc(self@.tareas, true),
            );
            assert(vistas_tareas(r@) =~= listado(self@));
        }
        r
    }

    /// Fetches the task with this id in the nested shape, joining it
    /// with its category row.
    pub fn obtener_tarea_completa(&self, id: i64) -> (r: Result<Tarea, Fallo>)
        requires
            bien_formada(self@),
        ensures
            ({
                let v = self@;
                if tiene_tarea(v.tareas, id as int) {
                    r matches Result::Ok(t) && t@ == anidada(
                        tarea_por_id(v.tareas, id as int),
                        categoria_por_id(v.categorias, tarea_por_id(v.tareas, id as int).categoria_id),
                    )
                } else {
                    r == Result::<Tarea, Fallo>::Err(Fallo::NoEncontrada { tarea_id: id })
                }
            }),
    {
        match self.posicion_tarea(id) {
            Option::None => Result::Err(Fallo::NoEncontrada { tarea_id: id }),
            Option::Some(i) => {
                proof {
                    let v = self@;
                    let k = indice_tarea(v.tareas, id as int);
                    if k != i {
                        assert(false);
                    }
                    assert(fila_valida(v.tareas[i as int], v));
                }
                match self.posicion_categoria(self.tareas[i].categoria_id) {
                    Option::None => {
                        proof {
                            assert(false);
                        }
                        Result::Err(Fallo::Persistencia)
                    },
                    Option::Some(j) => {
                        proof {
                            let v = self@;
                            let k = indice_categoria(
                                v.categorias,
                                v.tareas[i as int].categoria_id,
                            );
                            if k != j {
                                assert(false);
                            }
                        }
                        Result::Ok(armar_tarea(&self.tareas[i], &self.categorias[j]))
                    },
                }
            },
        }
    }
}

} // verus!
