/* Replays form posts and same-origin links over fetch and swaps the answer in
   place of the page. */
(function () {
    if (window.__inSoft) { return; }
    window.__inSoft = true;
    window.__inBuild = document.documentElement.getAttribute('data-build') || '';
    window.__inOwn = function (node, classes, attrs) {
        var own = node.__inMine;
        if (!own) { own = node.__inMine = { c: [], a: [] }; }
        (classes || []).forEach(function (c) {
            if (own.c.indexOf(c) === -1) { own.c.push(c); }
            node.classList.add(c);
        });
        (attrs || []).forEach(function (a) { if (own.a.indexOf(a) === -1) { own.a.push(a); } });
        return node;
    };
    window.__inAdded = function (node) { node.__inAdded = true; return node; };
    function wire() {
        document.querySelectorAll('.comment-list').forEach(function (list) { list.scrollTop = list.scrollHeight; });
        document.dispatchEvent(new Event('in:wire'));
    }
    function keyOf(el) {
        var form = el.form ? (el.form.getAttribute('action') || '') : '';
        return form + '|' + (el.name || '') + '|' + (el.type || '') + '|' + (el.tagName || '');
    }
    function editable(el) {
        return el.type !== 'hidden' && el.type !== 'password' && el.type !== 'file';
    }
    function captureFields() {
        var active = document.activeElement, out = [];
        document.querySelectorAll('input, textarea, select').forEach(function (el) {
            if (!editable(el)) { return; }
            var moved;
            if (el.type === 'checkbox' || el.type === 'radio') { moved = el.checked !== el.defaultChecked; }
            else if (el.tagName === 'SELECT') {
                var def = -1;
                for (var j = 0; j < el.options.length; j++) { if (el.options[j].defaultSelected) { def = j; break; } }
                if (def < 0) { def = 0; }
                moved = el.selectedIndex !== def;
            } else { moved = el.value !== el.defaultValue; }
            var focused = el === active;
            if (!moved && !focused) { return; }
            var start = -1, end = -1;
            try { if (el.selectionStart != null) { start = el.selectionStart; end = el.selectionEnd; } } catch (err) { }
            out.push({ k: keyOf(el), v: el.value, c: el.checked, i: el.selectedIndex, f: focused, s: start, e: end });
        });
        return out;
    }
    function restoreFields(saved) {
        if (!saved || !saved.length) { return; }
        var fields = document.querySelectorAll('input, textarea, select');
        saved.forEach(function (was) {
            var el = null;
            for (var i = 0; i < fields.length; i++) {
                if (keyOf(fields[i]) === was.k) { el = fields[i]; break; }
            }
            if (!el) { return; }
            if (el.type === 'checkbox' || el.type === 'radio') { el.checked = was.c; }
            else if (el.tagName === 'SELECT') { el.selectedIndex = was.i; }
            else { el.value = was.v; }
            if (was.f) {
                try {
                    el.focus();
                    if (was.s >= 0 && el.setSelectionRange) { el.setSelectionRange(was.s, was.e); }
                } catch (err) { }
            }
        });
    }
    function clientMade(node) { return node.__inAdded === true; }
    function pairable(a, b) {
        if (a.nodeType !== b.nodeType) { return false; }
        if (a.nodeType !== 1) { return true; }
        if (a.nodeName !== b.nodeName) { return false; }
        if (a.id || b.id) { return a.id === b.id; }
        return true;
    }
    function syncClass(from, to, own) {
        var want = [];
        to.classList.forEach(function (c) { want.push(c); });
        if (own) {
            own.c.forEach(function (c) {
                if (from.classList.contains(c) && want.indexOf(c) === -1) { want.push(c); }
            });
        }
        if (want.length) { from.setAttribute('class', want.join(' ')); }
        else if (from.hasAttribute('class')) { from.removeAttribute('class'); }
    }
    function syncAttrs(from, to) {
        var own = from.__inMine, i, at;
        for (i = to.attributes.length - 1; i >= 0; i--) {
            at = to.attributes[i];
            if (at.name === 'class') { continue; }
            if (own && own.a.indexOf(at.name) !== -1) { continue; }
            if (from.getAttribute(at.name) !== at.value) { from.setAttribute(at.name, at.value); }
        }
        for (i = from.attributes.length - 1; i >= 0; i--) {
            at = from.attributes[i];
            if (at.name === 'class') { continue; }
            if (own && own.a.indexOf(at.name) !== -1) { continue; }
            if (!to.hasAttribute(at.name)) { from.removeAttribute(at.name); }
        }
        syncClass(from, to, own);
    }
    function morph(from, to) {
        if (from.nodeType !== 1) {
            if (from.nodeValue !== to.nodeValue) { from.nodeValue = to.nodeValue; }
            return;
        }
        syncAttrs(from, to);
        if (from.nodeName === 'SCRIPT') {
            if (from.textContent !== to.textContent) {
                var live = document.createElement('script');
                if (to.hasAttribute('src')) { live.setAttribute('src', to.getAttribute('src')); }
                live.textContent = to.textContent;
                from.replaceWith(live);
            }
            return;
        }
        morphChildren(from, to);
    }
    function morphChildren(from, to) {
        var mine = [], theirs = [], n;
        for (n = from.firstChild; n; n = n.nextSibling) { if (!clientMade(n)) { mine.push(n); } }
        for (n = to.firstChild; n; n = n.nextSibling) { theirs.push(n); }
        var i;
        for (i = 0; i < theirs.length; i++) {
            if (i < mine.length) {
                if (pairable(mine[i], theirs[i])) { morph(mine[i], theirs[i]); }
                else { mine[i].replaceWith(document.importNode(theirs[i], true)); }
            } else {
                from.appendChild(document.importNode(theirs[i], true));
            }
        }
        for (i = theirs.length; i < mine.length; i++) { mine[i].remove(); }
    }
    window.__inNav = 0;
    function navStep() { return ++window.__inNav; }
    function stillCurrent(n) { return window.__inNav === n; }
    function swap(html, url, fresh, push, morphing) {
        var doc = new DOMParser().parseFromString(html, 'text/html');
        var build = doc.documentElement.getAttribute('data-build') || '';
        if (build && window.__inBuild && build !== window.__inBuild) {
            var dirty = captureFields().length > 0;
            var reloaded = null;
            try { reloaded = sessionStorage.getItem('inSkewFor'); } catch (err) { }
            if (!dirty && reloaded !== build) {
                try { sessionStorage.setItem('inSkewFor', build); } catch (err) { }
                location.reload();
                return;
            }
            if (!dirty) {
                window.__inBuild = build;
                document.documentElement.setAttribute('data-build', build);
            }
        }
        var keep = window.__inKeep ? captureFields() : null;
        window.__inKeep = false;
        var x = window.scrollX, y = window.scrollY;
        var root = doc.documentElement;
        if (root.getAttribute('lang')) { document.documentElement.setAttribute('lang', root.getAttribute('lang')); }
        if (root.hasAttribute('data-theme')) { document.documentElement.setAttribute('data-theme', root.getAttribute('data-theme')); }
        else { document.documentElement.removeAttribute('data-theme'); }
        if (root.hasAttribute('data-ui')) { document.documentElement.setAttribute('data-ui', root.getAttribute('data-ui')); }
        else { document.documentElement.removeAttribute('data-ui'); }
        if (url) { history[push ? 'pushState' : 'replaceState'](null, '', url); }
        if (morphing) {
            morph(document.body, doc.body);
        } else {
            document.body.replaceChildren();
            while (doc.body.firstChild) { document.body.appendChild(doc.body.firstChild); }
            document.body.querySelectorAll('script').forEach(function (old) {
                var live = document.createElement('script');
                if (old.hasAttribute('src')) { live.setAttribute('src', old.getAttribute('src')); }
                live.textContent = old.textContent;
                old.replaceWith(live);
            });
            window.scrollTo(fresh ? 0 : x, fresh ? 0 : y);
        }
        restoreFields(keep);
        wire();
    }
    function sweepPanels() {
        document.querySelectorAll('.dd-panel').forEach(function (panel) {
            if (panel.__ddTrigger && !document.contains(panel.__ddTrigger)) { panel.remove(); }
        });
    }
    window.__inGo = function (url) {
        var n = navStep();
        fetch(url).then(
            function (r) { return r.text().then(function (t) { if (stillCurrent(n)) { swap(t, r.url); } }); },
            function () { window.location.href = url; }
        );
    };
    window.__inRefresh = function () {
        var n = window.__inNav;
        fetch(window.location.href).then(
            function (r) { return r.text().then(function (t) { if (stillCurrent(n)) { swap(t, r.url, false, false, true); } }); },
            function () {}
        );
    };
    window.__inQuery = function (url) {
        var n = navStep();
        fetch(url).then(
            function (r) { return r.text().then(function (t) { if (stillCurrent(n)) { swap(t, r.url, false, false, true); } }); },
            function () {}
        );
    };
    window.__inPost = function (action, fields) {
        var n = navStep();
        fetch(action, { method: 'POST', headers: { accept: 'text/html' }, body: new URLSearchParams(fields) }).then(
            function (r) { return r.text().then(function (t) { if (stillCurrent(n)) { swap(t, r.url); } }); },
            function () {}
        );
    };
    window.__inCloseViewer = function () {
        var scrim = document.querySelector('.viewer-scrim');
        if (!scrim) { return false; }
        var back = scrim.querySelector('.viewer-close').getAttribute('href');
        navStep();
        scrim.remove();
        sweepPanels();
        history.replaceState(null, '', back);
        var modal = document.querySelector('.modal');
        if (modal) { modal.focus(); }
        return true;
    };
    window.__inCloseModal = function () {
        var scrims = document.querySelectorAll('.modal-scrim');
        if (!scrims.length) { return false; }
        navStep();
        scrims.forEach(function (el) { el.remove(); });
        sweepPanels();
        var u = new URL(window.location.href);
        ['task', 'file', 'confirm', 'new', 'refusal', 'on'].forEach(function (k) { u.searchParams.delete(k); });
        var q = u.searchParams.toString();
        history.replaceState(null, '', u.pathname + (q ? '?' + q : ''));
        return true;
    };
    document.addEventListener('submit', function (e) {
        var form = e.target;
        if (!form || form.hasAttribute('data-hard')) { return; }
        var method = (form.getAttribute('method') || 'get').toLowerCase();
        if (method !== 'post') {
            e.preventDefault();
            var q = new URLSearchParams(new FormData(form)).toString();
            window.__inGo((form.getAttribute('action') || window.location.pathname) + (q ? '?' + q : ''));
            return;
        }
        e.preventDefault();
        var data = e.submitter ? new FormData(form, e.submitter) : new FormData(form);
        var multipart = (form.getAttribute('enctype') || '').indexOf('multipart') !== -1;
        if (multipart) {
            if (form.__inUploading) { return; }
            form.__inUploading = true;
            var n = navStep();
            var box = form.querySelector('.file-upload-box');
            var input = form.querySelector('.file-upload-input');
            var bar = null, drop = null;
            if (box) {
                bar = document.createElement('div');
                bar.className = 'upload-progress';
                var fill = document.createElement('div');
                fill.className = 'upload-progress-fill';
                bar.appendChild(fill);
                box.appendChild(window.__inAdded(bar));
                drop = document.createElement('button');
                drop.type = 'button';
                drop.className = 'file-chip-drop upload-progress-drop';
                var cancelLabel = form.getAttribute('data-cancel-label');
                if (cancelLabel) { drop.setAttribute('aria-label', cancelLabel); }
                drop.innerHTML = '<svg class="glyph" width="13" height="13" viewBox="0 0 16 16" fill="none" stroke="currentColor" stroke-width="1.5" stroke-linecap="round" aria-hidden="true"><path d="M4 4l8 8M12 4l-8 8"></path></svg>';
                drop.addEventListener('click', function (e) { e.preventDefault(); e.stopPropagation(); x.abort(); });
                box.appendChild(window.__inAdded(drop));
            }
            if (input) { input.disabled = true; window.__inOwn(input, [], ['disabled']); }
            var settle = function () {
                form.__inUploading = false;
                if (input) { input.disabled = false; }
                if (bar && bar.parentNode) { bar.parentNode.removeChild(bar); }
                if (drop && drop.parentNode) { drop.parentNode.removeChild(drop); }
            };
            var x = new XMLHttpRequest();
            x.open('POST', form.getAttribute('action') || window.location.href);
            x.setRequestHeader('accept', 'text/html');
            x.upload.onprogress = function (ev) {
                if (!fill) { return; }
                if (!bar.isConnected) { box.appendChild(bar); if (drop) { box.appendChild(drop); } }
                if (ev.lengthComputable && ev.total > 0) { fill.style.width = Math.min(100, Math.round((ev.loaded / ev.total) * 100)) + '%'; }
            };
            x.onload = function () {
                settle();
                if (!stillCurrent(n)) { return; }
                swap(x.responseText, x.responseURL || form.getAttribute('action') || window.location.href);
            };
            x.onerror = function () { settle(); form.submit(); };
            x.onabort = function () {
                if (input) { input.value = ''; }
                var name = box ? box.querySelector('.file-upload-name') : null;
                var empty = form.getAttribute('data-empty-label');
                if (name && empty) { name.textContent = empty; }
                settle();
            };
            x.send(data);
            return;
        }
        var n = navStep();
        fetch(form.getAttribute('action'), { method: 'POST', headers: { accept: 'text/html' }, body: new URLSearchParams(data) }).then(
            function (r) { return r.text().then(function (t) { if (stillCurrent(n)) { swap(t, r.url); } }); },
            function () { form.submit(); }
        );
    }, true);
    document.addEventListener('change', function (e) {
        var control = e.target;
        if (control.classList && control.classList.contains('file-upload-input')) {
            var label = control.closest('label');
            var name = label ? label.querySelector('.file-upload-name') : null;
            if (name && control.files && control.files[0]) {
                name.textContent = control.files[0].name + (control.files.length > 1 ? ' +' + (control.files.length - 1) : '');
            }
            control.form.requestSubmit();
            return;
        }
        if (control.hasAttribute && control.hasAttribute('data-autosubmit')) { control.form.requestSubmit(); }
    });
    document.addEventListener('click', function (e) {
        var link = e.target.closest ? e.target.closest('a') : null;
        if (link) {
            if (link.classList.contains('viewer-close') || (link.classList.contains('detail-close') && link.closest('.viewer-scrim'))) {
                e.preventDefault();
                window.__inCloseViewer();
                return;
            }
            if (link.getAttribute('href') === '/' && link.closest('.modal-scrim')) {
                e.preventDefault();
                window.__inCloseModal();
                return;
            }
        }
        if (e.target.classList && e.target.classList.contains('modal-scrim')) {
            if (e.target.classList.contains('viewer-scrim')) { window.__inCloseViewer(); }
            else { window.__inCloseModal(); }
        }
    }, true);
    window.addEventListener('popstate', function () { window.__inGo(window.location.href); });
    document.addEventListener('click', function (e) {
        if (e.defaultPrevented || e.button !== 0 || e.ctrlKey || e.metaKey || e.shiftKey || e.altKey) { return; }
        var link = e.target.closest ? e.target.closest('a') : null;
        if (!link || link.hasAttribute('download') || link.hasAttribute('target') || link.hasAttribute('data-hard')) { return; }
        var href = link.getAttribute('href');
        if (!href || href.charAt(0) !== '/' || href.indexOf('/files/') === 0) { return; }
        e.preventDefault();
        var n = navStep();
        fetch(href).then(
            function (r) { return r.text().then(function (t) { if (stillCurrent(n)) { swap(t, r.url, true, true); } }); },
            function () { window.location.href = href; }
        );
    }, true);
    document.addEventListener('click', function (e) {
        if (e.target.closest && e.target.closest('.dd-trigger, .dd-panel, button, a, input, select, textarea')) { return; }
        var box = e.target.closest ? e.target.closest('.field-box, .status-form, .member-role') : null;
        if (!box) { return; }
        var trigger = box.querySelector('.dd-trigger');
        if (trigger) { e.stopImmediatePropagation(); trigger.click(); }
    });
    if (document.readyState === 'loading') { document.addEventListener('DOMContentLoaded', wire); } else { wire(); }
})();
