use vstd::prelude::*;

verus! {

/// A building block of a GUI: a leaf (`Text`, `Button`) or a window holding
/// an ordered list of child widgets. A label names a widget within its parent.
#[derive(Debug, PartialEq, Eq)]
pub enum Widget {
    /// A simple text component.
    Text { label: String, text: String },
    /// A pressable button.
    Button { label: String },
    /// A window of nested widgets.
    Window { label: String, widgets: Vec<Widget> },
}

impl Widget {
    /// The widget's label.
    pub open spec fn label(self) -> Seq<char> {
        match self {
            Widget::Text { label, .. } => label@,
            Widget::Button { label } => label@,
            Widget::Window { label, .. } => label@,
        }
    }

    /// The label of a widget, whatever its kind.
    pub fn get_label(&self) -> (r: &str)
        ensures
            r@ == self.label(),
    {
        match self {
            Widget::Text { label, .. } => label.as_str(),
            Widget::Button { label } => label.as_str(),
            Widget::Window { label, .. } => label.as_str(),
        }
    }

    /// Whether the widget's label is `label`.
    pub fn has_label(&self, label: &String) -> (r: bool)
        ensures
            r == (self.label() == label@),
    {
        match self {
            Widget::Text { label: l, .. } => *l == *label,
            Widget::Button { label: l } => *l == *label,
            Widget::Window { label: l, .. } => *l == *label,
        }
    }

    /// The widget's line (or block, for a window) in a diagnostic dump, at the
    /// given nesting depth.
    pub fn to_text(&self, depth: usize) -> (r: String)
        requires
            depth < usize::MAX - widget_height(*self),
        ensures
            r@ == widget_text(*self, depth as nat),
        decreases self,
    {
        let mut out = indentation(depth);
        match self {
            Widget::Text { label, .. } => {
                out.append("Text(");
                out.append(label.as_str());
                out.append(")\n");
            },
            Widget::Button { label } => {
                out.append("Button(");
                out.append(label.as_str());
                out.append(")\n");
            },
            Widget::Window { label, widgets } => {
                out.append("Begin Window(");
                out.append(label.as_str());
                out.append(")\n");
                let inner = widgets_to_text(widgets, depth + 1);
                out.append(inner.as_str());
                out.append(indentation(depth).as_str());
                out.append("End Window\n");
            },
        }
        proof {
            reveal_strlit("Text(");
            reveal_strlit("Button(");
            reveal_strlit("Begin Window(");
            reveal_strlit(")\n");
            reveal_strlit("End Window\n");
        }
        out
    }
}

/// How deeply windows nest inside a widget (0 for a leaf).
pub open spec fn widget_height(w: Widget) -> nat
    decreases w,
{
    match w {
        Widget::Window { widgets, .. } => 1 + forest_height(widgets@, widgets@.len() as int),
        _ => 0,
    }
}

/// The greatest height among the first `n` widgets of `ws`.
pub open spec fn forest_height(ws: Seq<Widget>, n: int) -> nat
    decreases ws, n,
{
    if n <= 0 || n > ws.len() {
        0
    } else {
        let rest = forest_height(ws, n - 1);
        let h = widget_height(ws[n - 1]);
        if h > rest { h } else { rest }
    }
}

/// Four spaces for each level of depth.
pub open spec fn indent(depth: nat) -> Seq<char>
    decreases depth,
{
    if depth == 0 {
        seq![]
    } else {
        indent((depth - 1) as nat) + seq![' ', ' ', ' ', ' ']
    }
}

/// The dump of one widget at a depth: `Text(label)`, `Button(label)`, or a
/// `Begin Window(label)` ... `End Window` block around its children, one
/// level deeper.
pub open spec fn widget_text(w: Widget, depth: nat) -> Seq<char>
    decreases w,
{
    match w {
        Widget::Text { label, .. } => indent(depth) + "Text("@ + label@ + ")\n"@,
        Widget::Button { label } => indent(depth) + "Button("@ + label@ + ")\n"@,
        Widget::Window { label, widgets } => indent(depth) + "Begin Window("@ + label@ + ")\n"@
            + forest_text(widgets@, widgets@.len() as int, depth + 1) + indent(depth)
            + "End Window\n"@,
    }
}

/// The dumps of the first `n` widgets of `ws`, one after the other.
pub open spec fn forest_text(ws: Seq<Widget>, n: int, depth: nat) -> Seq<char>
    decreases ws, n,
{
    if n <= 0 || n > ws.len() {
        seq![]
    } else {
        forest_text(ws, n - 1, depth) + widget_text(ws[n - 1], depth)
    }
}

fn indentation(depth: usize) -> (r: String)
    ensures
        r@ == indent(depth as nat),
{
    let mut out = String::new();
    let mut i: usize = 0;
    while i < depth
        invariant
            i <= depth,
            out@ == indent(i as nat),
        decreases depth - i,
    {
        out.append("    ");
        proof {
            reveal_strlit("    ");
        }
        i += 1;
    }
    out
}

/// The dump of a list of widgets at a depth.
pub fn widgets_to_text(widgets: &Vec<Widget>, depth: usize) -> (r: String)
    requires
        depth < usize::MAX - forest_height(widgets@, widgets@.len() as int),
    ensures
        r@ == forest_text(widgets@, widgets@.len() as int, depth as nat),
    decreases widgets,
{
    let mut out = String::new();
    let mut i: usize = 0;
    while i < widgets.len()
        invariant
            i <= widgets.len(),
            depth < usize::MAX - forest_height(widgets@, widgets@.len() as int),
            out@ == forest_text(widgets@, i as int, depth as nat),
        decreases widgets.len() - i,
    {
        proof {
            lemma_forest_height_bounds(widgets@, widgets@.len() as int, i as int);
        }
        let line = widgets[i].to_text(depth);
        out.append(line.as_str());
        i += 1;
    }
    out
}

/// A widget within the first `n` of a list is no higher than the list.
proof fn lemma_forest_height_bounds(ws: Seq<Widget>, n: int, i: int)
    requires
        0 <= i < n <= ws.len(),
    ensures
        widget_height(ws[i]) <= forest_height(ws, n),
    decreases n,
{
    if i < n - 1 {
        lemma_forest_height_bounds(ws, n - 1, i);
    }
}

/// The widgets of `ws` whose label is not `label`, in their order.
pub open spec fn without_label(ws: Seq<Widget>, label: Seq<char>) -> Seq<Widget>
    decreases ws.len(),
{
    if ws.len() == 0 {
        seq![]
    } else {
        let rest = without_label(ws.drop_last(), label);
        if ws.last().label() == label {
            rest
        } else {
            rest.push(ws.last())
        }
    }
}

/// Removing a label from a single widget leaves it, or nothing where it has
/// that label.
pub proof fn lemma_without_single(w: Widget, label: Seq<char>)
    ensures
        without_label(seq![w], label) == if w.label() == label { seq![] } else { seq![w] },
{
    assert(seq![w].drop_last() =~= Seq::<Widget>::empty());
    assert(seq![w].last() == w);
    assert(without_label(Seq::<Widget>::empty(), label) =~= Seq::<Widget>::empty());
    assert(Seq::<Widget>::empty().push(w) =~= seq![w]);
}

/// Removes every widget of `widgets` whose label is `label`, keeping the order
/// of the others.
pub fn retain_unlabelled(widgets: &mut Vec<Widget>, label: &String)
    ensures
        final(widgets)@ == without_label(old(widgets)@, label@),
{
    let ghost initial = widgets@;
    let n: usize = widgets.len();
    let mut i: usize = 0;
    let mut k: usize = 0;
    while i < widgets.len()
        invariant
            initial.len() == n,
            k <= initial.len(),
            i <= widgets.len(),
            widgets@.len() == i + (initial.len() - k),
            widgets@.subrange(0, i as int) == without_label(initial.subrange(0, k as int), label@),
            widgets@.subrange(i as int, widgets@.len() as int) == initial.subrange(k as int, initial.len() as int),
        decreases widgets.len() - i,
    {
        proof {
            assert(k < initial.len());
            assert(initial.subrange(0, k + 1).drop_last() == initial.subrange(0, k as int));
            assert(widgets@.subrange(i as int, widgets@.len() as int)[0] == widgets@[i as int]);
            assert(initial.subrange(k as int, initial.len() as int)[0] == initial[k as int]);
        }
        if widgets[i].has_label(label) {
            let ghost before = widgets@;
            widgets.remove(i);
            proof {
                assert(widgets@.subrange(0, i as int) == before.subrange(0, i as int));
                assert(widgets@.subrange(i as int, widgets@.len() as int)
                    =~= before.subrange(i + 1, before.len() as int));
                lemma_tails_agree(before, initial, i as int, k as int);
            }
        } else {
            proof {
                assert(widgets@.subrange(0, i + 1) == widgets@.subrange(0, i as int).push(widgets@[i as int]));
                lemma_tails_agree(widgets@, initial, i as int, k as int);
            }
            i += 1;
        }
        k += 1;
    }
    proof {
        assert(initial.subrange(0, initial.len() as int) == initial);
        assert(widgets@.subrange(0, i as int) == widgets@);
    }
}

/// Two sequences that agree from `i` and from `k` on agree from `i + 1` and
/// from `k + 1` on.
proof fn lemma_tails_agree(a: Seq<Widget>, b: Seq<Widget>, i: int, k: int)
    requires
        0 <= i < a.len(),
        0 <= k < b.len(),
        a.subrange(i, a.len() as int) == b.subrange(k, b.len() as int),
    ensures
        a.subrange(i + 1, a.len() as int) == b.subrange(k + 1, b.len() as int),
{
    let ta = a.subrange(i, a.len() as int);
    let tb = b.subrange(k, b.len() as int);
    assert(ta.len() == tb.len());
    assert forall|j: int| 0 <= j < a.len() - i - 1 implies
        #[trigger] a.subrange(i + 1, a.len() as int)[j] == b.subrange(k + 1, b.len() as int)[j] by {
        assert(ta[j + 1] == tb[j + 1]);
        assert(ta[j + 1] == a[i + 1 + j]);
        assert(tb[j + 1] == b[k + 1 + j]);
    }
    assert(a.subrange(i + 1, a.len() as int) =~= b.subrange(k + 1, b.len() as int));
}

/// After removing a label, no widget of that label is left, and every widget
/// of another label is kept.
pub proof fn lemma_without_label(ws: Seq<Widget>, label: Seq<char>)
    ensures
        forall|i: int| 0 <= i < without_label(ws, label).len()
            ==> #[trigger] without_label(ws, label)[i].label() != label,
        forall|i: int| 0 <= i < ws.len() && ws[i].label() != label
            ==> without_label(ws, label).contains(#[trigger] ws[i]),
    decreases ws.len(),
{
    if ws.len() > 0 {
        lemma_without_label(ws.drop_last(), label);
        let rest = without_label(ws.drop_last(), label);
        assert forall|i: int| 0 <= i < ws.len() && ws[i].label() != label
            implies without_label(ws, label).contains(#[trigger] ws[i]) by {
            if i < ws.len() - 1 {
                assert(ws.drop_last()[i] == ws[i]);
                let j = choose|j: int| 0 <= j < rest.len() && rest[j] == ws[i];
                if ws.last().label() != label {
                    assert(rest.push(ws.last())[j] == ws[i]);
                }
            } else {
                assert(rest.push(ws.last())[rest.len() as int] == ws[i]);
            }
        }
    }
}

} // verus!
